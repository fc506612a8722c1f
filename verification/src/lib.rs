//! Layer configuration resolution and access filtering.
//!
//! The crate models a declarative, multi-document description of map layers
//! and layer groups. Documents are merged into one namespace, all by-name
//! references are resolved to their definitions, numeric legend steps are
//! derived for band displays, and the resolved tree can be projected down to
//! the subset that a specific caller may see.
//!
//! The laws that hold of these operations — the filter is idempotent and
//! monotone, a filtered tree exposes exactly its listed layers, a built
//! configuration has unique layer ids and no dangling references — are
//! stated and proved in [`laws`] and at the end of [`config`].

use vstd::prelude::*;

pub mod access;
pub mod colormap;
pub mod config;
pub mod decimal;
pub mod earthquakes;
pub mod error;
pub mod group;
pub mod kml;
pub mod laws;
pub mod layer;
pub mod opacity;
pub mod paths;
pub mod pool;
pub mod source;
pub mod styles;
pub mod swisstopo;
pub mod tiff;
pub mod tiles3d;
pub mod translated;
pub mod voxel;
pub mod wmts;

verus! {

/// Membership of a character sequence in a sequence of strings.
pub open spec fn seq_contains_str(haystack: Seq<Seq<char>>, needle: Seq<char>) -> bool {
    exists|i: int| 0 <= i < haystack.len() && haystack[i] == needle
}

/// The views of a sequence of strings.
pub open spec fn strings_view(s: Seq<String>) -> Seq<Seq<char>> {
    Seq::new(s.len(), |i: int| s[i]@)
}

/// The views of a sequence of viewable values.
pub open spec fn seq_view<T: View>(s: Seq<T>) -> Seq<T::V> {
    Seq::new(s.len(), |i: int| s[i]@)
}

/// Returns whether `needle` occurs in `haystack`, comparing by characters.
pub fn contains_string(haystack: &Vec<String>, needle: &String) -> (r: bool)
    ensures
        r == seq_contains_str(strings_view(haystack@), needle@),
{
    let mut k: usize = 0;
    while k < haystack.len()
        invariant
            0 <= k <= haystack@.len(),
            forall|i: int| 0 <= i < k ==> haystack@[i]@ != needle@,
        decreases haystack@.len() - k,
    {
        if haystack[k].eq(needle) {
            assert(strings_view(haystack@)[k as int] == needle@);
            return true;
        }
        k += 1;
    }
    false
}

/// Clones a vector of strings, preserving its view.
pub fn clone_strings(v: &Vec<String>) -> (r: Vec<String>)
    ensures
        r@ == v@,
{
    let mut r: Vec<String> = Vec::new();
    let mut k: usize = 0;
    while k < v.len()
        invariant
            0 <= k <= v@.len(),
            r@.len() == k,
            forall|i: int| 0 <= i < k ==> r@[i] == v@[i],
        decreases v@.len() - k,
    {
        r.push(v[k].clone());
        k += 1;
    }
    assert(r@ =~= v@);
    r
}

} // verus!
