//! Voxel volume layers and their value mappings.

use vstd::prelude::*;
use crate::error::{ConfigError, ErrorView, ReferenceKind};
use crate::pool::{bump, keys_view, pool_find, pool_view, spec_bump, spec_first_key};
use crate::seq_contains_str;
use crate::seq_view;
use crate::source::{LayerSource, SourceView};

verus! {

/// The sentinel values of a voxel layer's data points.
#[derive(Clone, Copy, Debug, PartialEq, Eq, Structural)]
pub struct VoxelLayerValues {
    /// The value that represents an absent data point.
    pub no_data: i32,
    /// The value that represents a data point without a meaningful value.
    pub undefined: i32,
}

/// One value of a category mapping, with its display label and color.
#[derive(Debug)]
pub struct VoxelItemMappingItem {
    /// The translation key providing the display name for the item.
    pub label: String,
    /// The value that the data points matching this item have.
    pub value: i32,
    /// The color in which this value is displayed.
    pub color: String,
}

/// The mathematical value of a [`VoxelItemMappingItem`].
#[verifier::ext_equal]
pub ghost struct VoxelItemMappingItemView {
    pub label: Seq<char>,
    pub value: i32,
    pub color: Seq<char>,
}

impl View for VoxelItemMappingItem {
    type V = VoxelItemMappingItemView;

    open spec fn view(&self) -> VoxelItemMappingItemView {
        VoxelItemMappingItemView { label: self.label@, value: self.value, color: self.color@ }
    }
}

impl Clone for VoxelItemMappingItem {
    fn clone(&self) -> (r: Self)
        ensures
            r@ == self@,
    {
        VoxelItemMappingItem {
            label: self.label.clone(),
            value: self.value,
            color: self.color.clone(),
        }
    }
}

/// A mapping that gives each distinct data value a label and a color.
#[derive(Debug)]
pub struct VoxelItemMapping {
    /// The key of the property that contains the data points.
    pub key: String,
    /// The mapping's items, one per distinct value.
    pub items: Vec<VoxelItemMappingItem>,
    /// How many times this definition has been referenced.
    pub use_count: u32,
}

/// The mathematical value of a [`VoxelItemMapping`].
#[verifier::ext_equal]
pub ghost struct VoxelItemMappingView {
    pub key: Seq<char>,
    pub items: Seq<VoxelItemMappingItemView>,
    pub use_count: u32,
}

impl View for VoxelItemMapping {
    type V = VoxelItemMappingView;

    open spec fn view(&self) -> VoxelItemMappingView {
        VoxelItemMappingView {
            key: self.key@,
            items: seq_view(self.items@),
            use_count: self.use_count,
        }
    }
}

impl Clone for VoxelItemMapping {
    fn clone(&self) -> (r: Self)
        ensures
            r@ == self@,
    {
        let items = self.items.clone();
        proof {
            assert forall|i: int| 0 <= i < self.items@.len() implies items@[i]@
                == self.items@[i]@ by {
                assert(cloned::<VoxelItemMappingItem>(self.items@[i], items@[i]));
            }
            assert(seq_view(items@) =~= seq_view(self.items@));
        }
        VoxelItemMapping { key: self.key.clone(), items, use_count: self.use_count }
    }
}

/// A mapping that places data values on a numeric range rendered with a
/// color gradient.
#[derive(Debug)]
pub struct VoxelRangeMapping {
    /// The key of the property that contains the data points.
    pub key: String,
    /// The minimum and maximum values of the data points.
    pub range: (i32, i32),
    /// The colors with which the range is displayed.
    pub colors: Vec<String>,
    /// How many times this definition has been referenced.
    pub use_count: u32,
}

/// The mathematical value of a [`VoxelRangeMapping`].
#[verifier::ext_equal]
pub ghost struct VoxelRangeMappingView {
    pub key: Seq<char>,
    pub range: (i32, i32),
    pub colors: Seq<Seq<char>>,
    pub use_count: u32,
}

impl View for VoxelRangeMapping {
    type V = VoxelRangeMappingView;

    open spec fn view(&self) -> VoxelRangeMappingView {
        VoxelRangeMappingView {
            key: self.key@,
            range: self.range,
            colors: crate::strings_view(self.colors@),
            use_count: self.use_count,
        }
    }
}

impl Clone for VoxelRangeMapping {
    fn clone(&self) -> (r: Self)
        ensures
            r@ == self@,
    {
        let colors = crate::clone_strings(&self.colors);
        proof {
            assert(crate::strings_view(colors@) =~= crate::strings_view(self.colors@));
        }
        VoxelRangeMapping {
            key: self.key.clone(),
            range: self.range,
            colors,
            use_count: self.use_count,
        }
    }
}

/// A reusable voxel mapping definition: either a numeric range or a list of
/// categories.
#[derive(Debug)]
pub enum VoxelMappingDefinition {
    Range(VoxelRangeMapping),
    Category(VoxelItemMapping),
}

/// The mathematical value of a [`VoxelMappingDefinition`].
#[verifier::ext_equal]
pub ghost enum VoxelMappingDefinitionView {
    Range(VoxelRangeMappingView),
    Category(VoxelItemMappingView),
}

impl VoxelMappingDefinitionView {
    /// The definition's use count.
    pub open spec fn use_count(self) -> u32 {
        match self {
            VoxelMappingDefinitionView::Range(r) => r.use_count,
            VoxelMappingDefinitionView::Category(c) => c.use_count,
        }
    }

    /// The same definition with its use count one higher.
    pub open spec fn bumped(self) -> Self {
        match self {
            VoxelMappingDefinitionView::Range(r) => VoxelMappingDefinitionView::Range(
                VoxelRangeMappingView { use_count: spec_bump(r.use_count), ..r },
            ),
            VoxelMappingDefinitionView::Category(c) => VoxelMappingDefinitionView::Category(
                VoxelItemMappingView { use_count: spec_bump(c.use_count), ..c },
            ),
        }
    }
}

impl View for VoxelMappingDefinition {
    type V = VoxelMappingDefinitionView;

    open spec fn view(&self) -> VoxelMappingDefinitionView {
        match self {
            VoxelMappingDefinition::Range(r) => VoxelMappingDefinitionView::Range(r@),
            VoxelMappingDefinition::Category(c) => VoxelMappingDefinitionView::Category(c@),
        }
    }
}

impl Clone for VoxelMappingDefinition {
    fn clone(&self) -> (r: Self)
        ensures
            r@ == self@,
    {
        match self {
            VoxelMappingDefinition::Range(r) => VoxelMappingDefinition::Range(r.clone()),
            VoxelMappingDefinition::Category(c) => VoxelMappingDefinition::Category(c.clone()),
        }
    }
}

impl VoxelMappingDefinition {
    /// The definition's use count.
    pub fn use_count(&self) -> (c: u32)
        ensures
            c == self@.use_count(),
    {
        match self {
            VoxelMappingDefinition::Range(r) => r.use_count,
            VoxelMappingDefinition::Category(c) => c.use_count,
        }
    }

    /// Increments the definition's use count.
    pub fn increment_use_count(&mut self)
        ensures
            final(self)@ == old(self)@.bumped(),
    {
        match self {
            VoxelMappingDefinition::Range(r) => r.use_count = bump(r.use_count),
            VoxelMappingDefinition::Category(c) => c.use_count = bump(c.use_count),
        }
    }
}

/// A voxel layer's mapping: either a by-name reference into the document's
/// mapping pool or a definition written in place.
#[derive(Debug)]
pub enum VoxelLayerMapping {
    Reference(String),
    Definition(VoxelMappingDefinition),
}

/// The mathematical value of a [`VoxelLayerMapping`].
#[verifier::ext_equal]
pub ghost enum VoxelLayerMappingView {
    Reference(Seq<char>),
    Definition(VoxelMappingDefinitionView),
}

impl View for VoxelLayerMapping {
    type V = VoxelLayerMappingView;

    open spec fn view(&self) -> VoxelLayerMappingView {
        match self {
            VoxelLayerMapping::Reference(name) => VoxelLayerMappingView::Reference(name@),
            VoxelLayerMapping::Definition(d) => VoxelLayerMappingView::Definition(d@),
        }
    }
}

impl Clone for VoxelLayerMapping {
    fn clone(&self) -> (r: Self)
        ensures
            r@ == self@,
    {
        match self {
            VoxelLayerMapping::Reference(name) => VoxelLayerMapping::Reference(name.clone()),
            VoxelLayerMapping::Definition(d) => VoxelLayerMapping::Definition(d.clone()),
        }
    }
}

/// A voxel volume layer.
#[derive(Debug)]
pub struct VoxelLayer {
    /// Where the volume is loaded from.
    pub source: LayerSource,
    /// The key of the property that contains the layer's data points.
    pub data_key: String,
    /// The sentinel values of the layer's data points.
    pub values: VoxelLayerValues,
    /// The layer's value mappings.
    pub mappings: Vec<VoxelLayerMapping>,
}

/// The mathematical value of a [`VoxelLayer`].
#[verifier::ext_equal]
pub ghost struct VoxelLayerView {
    pub source: SourceView,
    pub data_key: Seq<char>,
    pub values: VoxelLayerValues,
    pub mappings: Seq<VoxelLayerMappingView>,
}

impl View for VoxelLayer {
    type V = VoxelLayerView;

    open spec fn view(&self) -> VoxelLayerView {
        VoxelLayerView {
            source: self.source@,
            data_key: self.data_key@,
            values: self.values,
            mappings: seq_view(self.mappings@),
        }
    }
}

/// The names of a mapping-pool view's entries.
pub open spec fn spec_keys(pool: Seq<(Seq<char>, VoxelMappingDefinitionView)>) -> Seq<Seq<char>> {
    Seq::new(pool.len(), |i: int| pool[i].0)
}

/// Resolves one voxel mapping against the pool: a reference is replaced by
/// the first pool definition of that name, whose use count is incremented
/// first; an in-place definition stays as it is.
pub open spec fn spec_resolve_mapping(
    m: VoxelLayerMappingView,
    pool: Seq<(Seq<char>, VoxelMappingDefinitionView)>,
) -> Result<(VoxelLayerMappingView, Seq<(Seq<char>, VoxelMappingDefinitionView)>), ErrorView> {
    match m {
        VoxelLayerMappingView::Definition(_) => Ok((m, pool)),
        VoxelLayerMappingView::Reference(name) => {
            if seq_contains_str(spec_keys(pool), name) {
                let j = spec_first_key(spec_keys(pool), name);
                let d = pool[j].1.bumped();
                Ok(
                    (
                        VoxelLayerMappingView::Definition(d),
                        pool.update(j, (pool[j].0, d)),
                    ),
                )
            } else {
                Err(
                    ErrorView::UnknownReference {
                        kind: ReferenceKind::VoxelMapping,
                        name,
                        document: Seq::empty(),
                    },
                )
            }
        },
    }
}

/// Resolves a sequence of voxel mappings in order, threading the pool
/// through so that every reference bumps the use count of its target.
pub open spec fn spec_resolve_mappings(
    ms: Seq<VoxelLayerMappingView>,
    pool: Seq<(Seq<char>, VoxelMappingDefinitionView)>,
) -> Result<(Seq<VoxelLayerMappingView>, Seq<(Seq<char>, VoxelMappingDefinitionView)>), ErrorView>
    decreases ms.len(),
{
    if ms.len() == 0 {
        Ok((Seq::empty(), pool))
    } else {
        match spec_resolve_mappings(ms.drop_last(), pool) {
            Ok((s, p)) => match spec_resolve_mapping(ms.last(), p) {
                Ok((m, p2)) => Ok((s.push(m), p2)),
                Err(e) => Err(e),
            },
            Err(e) => Err(e),
        }
    }
}

/// Resolves a voxel layer: every by-name mapping reference is bound to its
/// pool definition.
pub open spec fn spec_resolve_voxel_layer(
    l: VoxelLayerView,
    pool: Seq<(Seq<char>, VoxelMappingDefinitionView)>,
) -> Result<(VoxelLayerView, Seq<(Seq<char>, VoxelMappingDefinitionView)>), ErrorView> {
    match spec_resolve_mappings(l.mappings, pool) {
        Ok((ms, p)) => Ok((VoxelLayerView { mappings: ms, ..l }, p)),
        Err(e) => Err(e),
    }
}

/// Once one mapping fails to resolve, the whole sequence fails with that
/// first error.
pub proof fn lemma_resolve_mappings_err(
    ms: Seq<VoxelLayerMappingView>,
    pool: Seq<(Seq<char>, VoxelMappingDefinitionView)>,
    k: int,
    e: ErrorView,
)
    requires
        0 <= k < ms.len(),
        spec_resolve_mappings(ms.subrange(0, k), pool) matches Ok(sp) && spec_resolve_mapping(
            ms[k],
            sp.1,
        ) == Err::<
            (VoxelLayerMappingView, Seq<(Seq<char>, VoxelMappingDefinitionView)>),
            ErrorView,
        >(e),
    ensures
        spec_resolve_mappings(ms, pool) == Err::<
            (Seq<VoxelLayerMappingView>, Seq<(Seq<char>, VoxelMappingDefinitionView)>),
            ErrorView,
        >(e),
    decreases ms.len(),
{
    let prefix = ms.subrange(0, k);
    if k == ms.len() - 1 {
        assert(ms.drop_last() =~= prefix);
        assert(ms.last() == ms[k]);
    } else {
        let m1 = ms.drop_last();
        assert(m1.subrange(0, k) =~= prefix);
        assert(m1[k] == ms[k]);
        lemma_resolve_mappings_err(m1, pool, k, e);
    }
}

impl VoxelLayer {
    /// Binds every by-name mapping reference of the layer to the pool
    /// definition of that name, incrementing the definition's use count.
    /// A name with no backing definition fails the resolution.
    pub fn resolve(self, pool: &mut Vec<(String, VoxelMappingDefinition)>) -> (r: Result<
        VoxelLayer,
        ConfigError,
    >)
        ensures
            match r {
                Ok(l) => spec_resolve_voxel_layer(self@, pool_view(old(pool)@)) == Ok::<
                    _,
                    ErrorView,
                >((l@, pool_view(final(pool)@))),
                Err(e) => spec_resolve_voxel_layer(self@, pool_view(old(pool)@)) == Err::<
                    (VoxelLayerView, Seq<(Seq<char>, VoxelMappingDefinitionView)>),
                    _,
                >(e@),
            },
    {
        let ghost all = seq_view(self.mappings@);
        let ghost pool0 = pool_view(pool@);
        let mut out: Vec<VoxelLayerMapping> = Vec::new();
        let mut k: usize = 0;
        proof {
            assert(all.subrange(0, 0) =~= Seq::<VoxelLayerMappingView>::empty());
            assert(seq_view(out@) =~= Seq::<VoxelLayerMappingView>::empty());
        }
        while k < self.mappings.len()
            invariant
                0 <= k <= self.mappings@.len(),
                all == seq_view(self.mappings@),
                pool0 == pool_view(old(pool)@),
                spec_resolve_mappings(all.subrange(0, k as int), pool0) == Ok::<
                    _,
                    ErrorView,
                >((seq_view(out@), pool_view(pool@))),
            decreases self.mappings@.len() - k,
        {
            let ghost s_pre = seq_view(out@);
            let ghost p_pre = pool_view(pool@);
            let ghost prefix = all.subrange(0, k as int);
            proof {
                assert(all[k as int] == self.mappings@[k as int]@);
            }
            match &self.mappings[k] {
                VoxelLayerMapping::Definition(_) => {
                    let m = self.mappings[k].clone();
                    proof {
                        assert(m@ == all[k as int]);
                    }
                    out.push(m);
                    proof {
                        assert(seq_view(out@) =~= s_pre.push(all[k as int]));
                    }
                },
                VoxelLayerMapping::Reference(name) => {
                    let ghost nm = name@;
                    proof {
                        assert(spec_keys(p_pre) =~= keys_view(pool@));
                    }
                    match pool_find(pool, name) {
                        Some(j) => {
                            let ghost jj = j as int;
                            let mut d = pool[j].1.clone();
                            d.increment_use_count();
                            proof {
                                assert(d@ == p_pre[jj].1.bumped());
                            }
                            let key = pool[j].0.clone();
                            let d2 = d.clone();
                            pool.set(j, (key, d2));
                            out.push(VoxelLayerMapping::Definition(d));
                            proof {
                                assert(pool_view(pool@) =~= p_pre.update(
                                    jj,
                                    (p_pre[jj].0, p_pre[jj].1.bumped()),
                                ));
                                assert(seq_view(out@) =~= s_pre.push(
                                    VoxelLayerMappingView::Definition(p_pre[jj].1.bumped()),
                                ));
                            }
                        },
                        None => {
                            let e = ConfigError::UnknownReference {
                                kind: ReferenceKind::VoxelMapping,
                                name: name.clone(),
                                document: String::new(),
                            };
                            proof {
                                assert(spec_resolve_mapping(all[k as int], p_pre) == Err::<
                                    (
                                        VoxelLayerMappingView,
                                        Seq<(Seq<char>, VoxelMappingDefinitionView)>,
                                    ),
                                    ErrorView,
                                >(e@));
                                lemma_resolve_mappings_err(all, pool0, k as int, e@);
                                assert(spec_resolve_voxel_layer(self@, pool0) == Err::<
                                    (
                                        VoxelLayerView,
                                        Seq<(Seq<char>, VoxelMappingDefinitionView)>,
                                    ),
                                    ErrorView,
                                >(e@));
                            }
                            return Err(e);
                        },
                    }
                },
            }
            proof {
                let prefix1 = all.subrange(0, k as int + 1);
                assert(prefix1.drop_last() =~= prefix);
                assert(prefix1.last() == all[k as int]);
                assert(spec_resolve_mappings(prefix1, pool0) == Ok::<_, ErrorView>(
                    (seq_view(out@), pool_view(pool@)),
                ));
            }
            k += 1;
        }
        proof {
            assert(all.subrange(0, self.mappings@.len() as int) =~= all);
        }
        let VoxelLayer { source, data_key, values, mappings: _ } = self;
        Ok(VoxelLayer { source, data_key, values, mappings: out })
    }
}

} // verus!
