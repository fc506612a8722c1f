//! The root configuration: ordered layers, ordered top-level groups and
//! named definition pools, assembled by merging every included document
//! into one namespace and resolving all by-name references.

use vstd::prelude::*;
use crate::colormap::{ColorMapTable, ColorMapView};
use crate::error::{ConfigError, ErrorView, IdKind, UnusedKind, UnusedWarning, WarningView};
use crate::error::{spec_with_document, with_document};
use crate::group::{
    GroupOrRefView, GroupView, LayerGroup, LayerGroupOrReference, find_group, gor_view,
    spec_group_ids, spec_layer_ids, spec_resolve_group,
};
use crate::layer::{Layer, LayerView, spec_parse_layer};
use crate::pool::{bump, pool_view, spec_first_key};
use crate::seq_contains_str;
use crate::seq_view;
use crate::tiff::{DisplayDefinitionView, TiffLayerBandDisplayDefinition, spec_parse_display};
use crate::voxel::{VoxelMappingDefinition, VoxelMappingDefinitionView};

verus! {

/// A configuration document, and, once built, the resolved root
/// configuration.
#[derive(Debug)]
pub struct LayerConfig {
    /// Documents to merge into this one, as paths relative to this
    /// document's own directory. Consumed during build.
    pub includes: Vec<String>,
    /// The layers, in merge order.
    pub layers: Vec<Layer>,
    /// The layer tree: the top-level groups.
    pub groups: Vec<LayerGroupOrReference>,
    /// Voxel mappings that may be reused by multiple layers, by name.
    pub voxel_mappings: Vec<(String, VoxelMappingDefinition)>,
    /// Band displays that may be reused by multiple layers, by name.
    pub tiff_displays: Vec<(String, TiffLayerBandDisplayDefinition)>,
}

/// The views of a sequence of top-level group entries.
pub open spec fn gors_view(s: Seq<LayerGroupOrReference>) -> Seq<GroupOrRefView> {
    Seq::new(s.len(), |i: int| gor_view(s[i]))
}

/// The mathematical value of a [`LayerConfig`].
#[verifier::ext_equal]
pub ghost struct ConfigView {
    pub includes: Seq<Seq<char>>,
    pub layers: Seq<LayerView>,
    pub groups: Seq<GroupOrRefView>,
    pub voxel_mappings: Seq<(Seq<char>, VoxelMappingDefinitionView)>,
    pub tiff_displays: Seq<(Seq<char>, DisplayDefinitionView)>,
}

impl View for LayerConfig {
    type V = ConfigView;

    open spec fn view(&self) -> ConfigView {
        ConfigView {
            includes: crate::strings_view(self.includes@),
            layers: seq_view(self.layers@),
            groups: gors_view(self.groups@),
            voxel_mappings: pool_view(self.voxel_mappings@),
            tiff_displays: pool_view(self.tiff_displays@),
        }
    }
}

/// The value of a configuration with nothing in it.
pub open spec fn spec_empty_config() -> ConfigView {
    ConfigView {
        includes: Seq::<Seq<char>>::empty(),
        layers: Seq::<LayerView>::empty(),
        groups: Seq::<GroupOrRefView>::empty(),
        voxel_mappings: Seq::<(Seq<char>, VoxelMappingDefinitionView)>::empty(),
        tiff_displays: Seq::<(Seq<char>, DisplayDefinitionView)>::empty(),
    }
}

impl LayerConfig {
    /// An empty configuration.
    pub fn new() -> (r: Self)
        ensures
            r@ == spec_empty_config(),
    {
        let r = LayerConfig {
            includes: Vec::new(),
            layers: Vec::new(),
            groups: Vec::new(),
            voxel_mappings: Vec::new(),
            tiff_displays: Vec::new(),
        };
        proof {
            assert(r@.includes =~= Seq::<Seq<char>>::empty());
            assert(r@.layers =~= Seq::<LayerView>::empty());
            assert(r@.groups =~= Seq::<GroupOrRefView>::empty());
            assert(r@.voxel_mappings =~= Seq::<(Seq<char>, VoxelMappingDefinitionView)>::empty());
            assert(r@.tiff_displays =~= Seq::<(Seq<char>, DisplayDefinitionView)>::empty());
        }
        r
    }
}

/// The state of a configuration build: the document's display name and
/// the merged tables of known layers and referenceable groups.
#[derive(Debug)]
pub struct LayerConfigContext {
    /// A string displaying the path to the root document.
    pub display: String,
    /// Every layer merged so far, with unique ids, in merge order.
    pub known_layers: Vec<Layer>,
    /// Every group contributed by an included document, available for
    /// referencing; discarded after the build unless referenced.
    pub known_groups: Vec<LayerGroup>,
}

/// The mathematical value of a [`LayerConfigContext`].
#[verifier::ext_equal]
pub ghost struct ConfigContextView {
    pub display: Seq<char>,
    pub known_layers: Seq<LayerView>,
    pub known_groups: Seq<GroupView>,
}

impl View for LayerConfigContext {
    type V = ConfigContextView;

    open spec fn view(&self) -> ConfigContextView {
        ConfigContextView {
            display: self.display@,
            known_layers: seq_view(self.known_layers@),
            known_groups: seq_view(self.known_groups@),
        }
    }
}

/// Adds one layer to the known-layers table; a second layer with an
/// already-known id is a duplicate-id error.
pub open spec fn spec_add_layer(ls: Seq<LayerView>, l: LayerView) -> Result<
    Seq<LayerView>,
    ErrorView,
> {
    if seq_contains_str(spec_layer_ids(ls), l.id) {
        Err(ErrorView::DuplicateId { kind: IdKind::Layer, id: l.id })
    } else {
        Ok(ls.push(l))
    }
}

/// Adds a sequence of layers in order.
pub open spec fn spec_add_layers(ls: Seq<LayerView>, new: Seq<LayerView>) -> Result<
    Seq<LayerView>,
    ErrorView,
>
    decreases new.len(),
{
    if new.len() == 0 {
        Ok(ls)
    } else {
        match spec_add_layer(ls, new[0]) {
            Ok(ls2) => spec_add_layers(ls2, new.subrange(1, new.len() as int)),
            Err(e) => Err(e),
        }
    }
}

/// Adds one top-level group entry of an included document to the
/// known-groups table. Only definitions are permitted there: a bare
/// reference is a structural violation; a second definition with an
/// already-known id is a duplicate-id error.
pub open spec fn spec_add_group(gs: Seq<GroupView>, g: GroupOrRefView) -> Result<
    Seq<GroupView>,
    ErrorView,
> {
    match g {
        GroupOrRefView::Reference(name) => Err(
            ErrorView::StructuralViolation { document: Seq::empty(), reference: name },
        ),
        GroupOrRefView::Definition(d) => {
            if seq_contains_str(spec_group_ids(gs), d.id) {
                Err(ErrorView::DuplicateId { kind: IdKind::Group, id: d.id })
            } else {
                Ok(gs.push(*d))
            }
        },
    }
}

/// Adds a sequence of top-level group entries in order.
pub open spec fn spec_add_groups(gs: Seq<GroupView>, new: Seq<GroupOrRefView>) -> Result<
    Seq<GroupView>,
    ErrorView,
>
    decreases new.len(),
{
    if new.len() == 0 {
        Ok(gs)
    } else {
        match spec_add_group(gs, new[0]) {
            Ok(gs2) => spec_add_groups(gs2, new.subrange(1, new.len() as int)),
            Err(e) => Err(e),
        }
    }
}

/// Merges an included document into the context: its layers join the
/// known-layers table and its top-level groups the known-groups table,
/// each failing on an id collision.
pub open spec fn spec_merge(ctx: ConfigContextView, other: ConfigView) -> Result<
    ConfigContextView,
    ErrorView,
> {
    match spec_add_layers(ctx.known_layers, other.layers) {
        Ok(ls) => match spec_add_groups(ctx.known_groups, other.groups) {
            Ok(gs) => Ok(ConfigContextView { known_layers: ls, known_groups: gs, ..ctx }),
            Err(e) => Err(e),
        },
        Err(e) => Err(e),
    }
}

impl LayerConfigContext {
    /// An empty build state for the document displayed as `display`.
    pub fn new(display: String) -> (r: Self)
        ensures
            r@.display == display@,
            r@.known_layers == Seq::<LayerView>::empty(),
            r@.known_groups == Seq::<GroupView>::empty(),
    {
        let r = LayerConfigContext {
            display,
            known_layers: Vec::new(),
            known_groups: Vec::new(),
        };
        proof {
            assert(r@.known_layers =~= Seq::<LayerView>::empty());
            assert(r@.known_groups =~= Seq::<GroupView>::empty());
        }
        r
    }

    /// Adds one layer to the known-layers table, failing on an id
    /// collision, in which case the context is unchanged.
    pub fn add_layer(&mut self, layer: Layer) -> (r: Result<(), ConfigError>)
        ensures
            match r {
                Ok(()) => spec_add_layer(old(self)@.known_layers, layer@) == Ok::<_, ErrorView>(
                    final(self)@.known_layers,
                ) && final(self)@ == (ConfigContextView {
                    known_layers: final(self)@.known_layers,
                    ..old(self)@
                }),
                Err(e) => spec_add_layer(old(self)@.known_layers, layer@) == Err::<
                    Seq<LayerView>,
                    _,
                >(e@) && final(self)@ == old(self)@,
            },
    {
        match crate::group::find_layer(&self.known_layers, &layer.id) {
            Some(_) => Err(ConfigError::DuplicateId { kind: IdKind::Layer, id: layer.id }),
            None => {
                self.known_layers.push(layer);
                proof {
                    assert(seq_view(self.known_layers@) =~= seq_view(old(self).known_layers@).push(
                        layer@,
                    ));
                }
                Ok(())
            },
        }
    }

    /// Merges an included, already fully parsed document: its layers join
    /// the known-layers table and its top-level groups the known-groups
    /// table. An id collision or a bare top-level group reference fails
    /// the merge.
    #[verifier::loop_isolation(false)]
    pub fn merge(&mut self, other: LayerConfig) -> (r: Result<(), ConfigError>)
        ensures
            match r {
                Ok(()) => spec_merge(old(self)@, other@) == Ok::<_, ErrorView>(final(self)@),
                Err(e) => spec_merge(old(self)@, other@) == Err::<ConfigContextView, _>(e@),
            },
    {
        let LayerConfig { includes: _, layers, groups, voxel_mappings: _, tiff_displays: _ } =
            other;
        let ghost other_layers = seq_view(layers@);
        let ghost other_groups = gors_view(groups@);
        proof {
            assert(other@.layers == other_layers);
            assert(other@.groups == other_groups);
        }
        let ghost l0 = self@.known_layers;
        let mut layers = layers;
        while layers.len() > 0
            invariant
                spec_add_layers(l0, other_layers) == spec_add_layers(
                    self@.known_layers,
                    seq_view(layers@),
                ),
                self@ == (ConfigContextView { known_layers: self@.known_layers, ..old(self)@ }),
            decreases layers@.len(),
        {
            let ghost rest_pre = seq_view(layers@);
            let l = layers.remove(0);
            proof {
                assert(seq_view(layers@) =~= rest_pre.subrange(1, rest_pre.len() as int));
                assert(rest_pre[0] == l@);
            }
            match self.add_layer(l) {
                Ok(()) => {},
                Err(e) => {
                    proof {
                        assert(spec_add_layers(self@.known_layers, rest_pre) == Err::<
                            Seq<LayerView>,
                            ErrorView,
                        >(e@));
                        assert(spec_merge(old(self)@, other@) == Err::<
                            ConfigContextView,
                            ErrorView,
                        >(e@));
                    }
                    return Err(e);
                },
            }
        }
        proof {
            assert(seq_view(layers@) =~= Seq::<LayerView>::empty());
        }
        let ghost g0 = self@.known_groups;
        let mut groups = groups;
        while groups.len() > 0
            invariant
                spec_add_layers(l0, other_layers) == Ok::<_, ErrorView>(self@.known_layers),
                spec_add_groups(g0, other_groups) == spec_add_groups(
                    self@.known_groups,
                    gors_view(groups@),
                ),
                self@ == (ConfigContextView {
                    known_layers: self@.known_layers,
                    known_groups: self@.known_groups,
                    ..old(self)@
                }),
            decreases groups@.len(),
        {
            let ghost rest_pre = gors_view(groups@);
            let g = groups.remove(0);
            proof {
                assert(gors_view(groups@) =~= rest_pre.subrange(1, rest_pre.len() as int));
                assert(rest_pre[0] == g@);
            }
            match g {
                LayerGroupOrReference::Reference(name) => {
                    let e = ConfigError::StructuralViolation {
                        document: String::new(),
                        reference: name,
                    };
                    proof {
                        assert(spec_add_group(self@.known_groups, rest_pre[0]) == Err::<
                            Seq<GroupView>,
                            ErrorView,
                        >(e@));
                        assert(spec_add_groups(self@.known_groups, rest_pre) == Err::<
                            Seq<GroupView>,
                            ErrorView,
                        >(e@));
                        assert(spec_merge(old(self)@, other@) == Err::<
                            ConfigContextView,
                            ErrorView,
                        >(e@));
                    }
                    return Err(e);
                },
                LayerGroupOrReference::Definition(d) => {
                    let ghost g_pre = self@.known_groups;
                    match find_group(&self.known_groups, &d.id) {
                        Some(_) => {
                            let e = ConfigError::DuplicateId { kind: IdKind::Group, id: d.id };
                            proof {
                                assert(spec_add_group(self@.known_groups, rest_pre[0]) == Err::<
                                    Seq<GroupView>,
                                    ErrorView,
                                >(e@));
                                assert(spec_add_groups(self@.known_groups, rest_pre) == Err::<
                                    Seq<GroupView>,
                                    ErrorView,
                                >(e@));
                                assert(spec_merge(old(self)@, other@) == Err::<
                                    ConfigContextView,
                                    ErrorView,
                                >(e@));
                            }
                            return Err(e);
                        },
                        None => {
                            self.known_groups.push(d);
                            proof {
                                assert(seq_view(self.known_groups@) =~= g_pre.push(
                                    *rest_pre[0]->Definition_0,
                                ));
                            }
                        },
                    }
                },
            }
        }
        proof {
            assert(gors_view(groups@) =~= Seq::<GroupOrRefView>::empty());
        }
        Ok(())
    }
}

/// Derives the legend steps of every pooled display definition, in order.
pub open spec fn spec_parse_displays(
    pool: Seq<(Seq<char>, DisplayDefinitionView)>,
    table: Seq<ColorMapView>,
) -> Result<Seq<(Seq<char>, DisplayDefinitionView)>, ErrorView>
    decreases pool.len(),
{
    if pool.len() == 0 {
        Ok(Seq::empty())
    } else {
        match spec_parse_displays(pool.drop_last(), table) {
            Ok(s) => match spec_parse_display(pool.last().1, table) {
                Ok(d) => Ok(s.push((pool.last().0, d))),
                Err(e) => Err(e),
            },
            Err(e) => Err(e),
        }
    }
}

/// Once one pooled display fails, the whole pool fails with that first
/// error.
pub proof fn lemma_parse_displays_err(
    pool: Seq<(Seq<char>, DisplayDefinitionView)>,
    table: Seq<ColorMapView>,
    k: int,
    e: ErrorView,
)
    requires
        0 <= k < pool.len(),
        spec_parse_displays(pool.subrange(0, k), table) is Ok,
        spec_parse_display(pool[k].1, table) == Err::<DisplayDefinitionView, ErrorView>(e),
    ensures
        spec_parse_displays(pool, table) == Err::<
            Seq<(Seq<char>, DisplayDefinitionView)>,
            ErrorView,
        >(e),
    decreases pool.len(),
{
    let prefix = pool.subrange(0, k);
    if k == pool.len() - 1 {
        assert(pool.drop_last() =~= prefix);
    } else {
        let p1 = pool.drop_last();
        assert(p1.subrange(0, k) =~= prefix);
        assert(p1[k] == pool[k]);
        lemma_parse_displays_err(p1, table, k, e);
    }
}

/// Resolves and adds the root document's layers in order: each layer's
/// detail is bound against the pools, then the layer joins the known
/// table, failing on an id collision.
pub open spec fn spec_parse_root_layers(
    new: Seq<LayerView>,
    vpool: Seq<(Seq<char>, VoxelMappingDefinitionView)>,
    tpool: Seq<(Seq<char>, DisplayDefinitionView)>,
    table: Seq<ColorMapView>,
    known: Seq<LayerView>,
) -> Result<
    (
        Seq<(Seq<char>, VoxelMappingDefinitionView)>,
        Seq<(Seq<char>, DisplayDefinitionView)>,
        Seq<LayerView>,
    ),
    ErrorView,
>
    decreases new.len(),
{
    if new.len() == 0 {
        Ok((vpool, tpool, known))
    } else {
        match spec_parse_layer(new[0], vpool, tpool, table) {
            Ok((l2, vp, tp)) => match spec_add_layer(known, l2) {
                Ok(kn) => spec_parse_root_layers(
                    new.subrange(1, new.len() as int),
                    vp,
                    tp,
                    table,
                    kn,
                ),
                Err(e) => Err(e),
            },
            Err(e) => Err(e),
        }
    }
}

/// Resolves one top-level group entry: a by-name reference is replaced by
/// the known group of that name, whose use count is incremented first; a
/// definition is resolved recursively.
pub open spec fn spec_resolve_top_group(
    g: GroupOrRefView,
    layers: Seq<LayerView>,
    groups: Seq<GroupView>,
) -> Result<(GroupOrRefView, Seq<LayerView>, Seq<GroupView>), ErrorView> {
    match g {
        GroupOrRefView::Reference(name) => {
            if seq_contains_str(spec_group_ids(groups), name) {
                let j = spec_first_key(spec_group_ids(groups), name);
                let d = groups[j].bumped();
                Ok(
                    (
                        GroupOrRefView::Definition(Box::new(d)),
                        layers,
                        groups.update(j, d),
                    ),
                )
            } else {
                Err(
                    ErrorView::UnknownReference {
                        kind: crate::error::ReferenceKind::Group,
                        name,
                        document: Seq::empty(),
                    },
                )
            }
        },
        GroupOrRefView::Definition(d) => match spec_resolve_group(*d, layers, groups) {
            Ok((d2, l2, g2)) => Ok((GroupOrRefView::Definition(Box::new(d2)), l2, g2)),
            Err(e) => Err(e),
        },
    }
}

/// Resolves the root document's top-level group entries in order,
/// threading the known tables through.
pub open spec fn spec_resolve_top_groups(
    gs: Seq<GroupOrRefView>,
    layers: Seq<LayerView>,
    groups: Seq<GroupView>,
) -> Result<(Seq<GroupOrRefView>, Seq<LayerView>, Seq<GroupView>), ErrorView>
    decreases gs.len(),
{
    if gs.len() == 0 {
        Ok((Seq::empty(), layers, groups))
    } else {
        match spec_resolve_top_groups(gs.drop_last(), layers, groups) {
            Ok((s, l, g)) => match spec_resolve_top_group(gs.last(), l, g) {
                Ok((g2, l2, gg2)) => Ok((s.push(g2), l2, gg2)),
                Err(e) => Err(e),
            },
            Err(e) => Err(e),
        }
    }
}

/// Once one top-level group fails to resolve, the whole sequence fails
/// with that first error.
pub proof fn lemma_resolve_top_groups_err(
    gs: Seq<GroupOrRefView>,
    layers: Seq<LayerView>,
    groups: Seq<GroupView>,
    k: int,
    e: ErrorView,
)
    requires
        0 <= k < gs.len(),
        spec_resolve_top_groups(gs.subrange(0, k), layers, groups) matches Ok(sp)
            && spec_resolve_top_group(gs[k], sp.1, sp.2) == Err::<
            (GroupOrRefView, Seq<LayerView>, Seq<GroupView>),
            ErrorView,
        >(e),
    ensures
        spec_resolve_top_groups(gs, layers, groups) == Err::<
            (Seq<GroupOrRefView>, Seq<LayerView>, Seq<GroupView>),
            ErrorView,
        >(e),
    decreases gs.len(),
{
    let prefix = gs.subrange(0, k);
    if k == gs.len() - 1 {
        assert(gs.drop_last() =~= prefix);
    } else {
        let g1 = gs.drop_last();
        assert(g1.subrange(0, k) =~= prefix);
        assert(g1[k] == gs[k]);
        lemma_resolve_top_groups_err(g1, layers, groups, k, e);
    }
}

/// The unused-definition warnings for the pooled display definitions.
pub open spec fn spec_tiff_warnings(pool: Seq<(Seq<char>, DisplayDefinitionView)>) -> Seq<
    WarningView,
>
    decreases pool.len(),
{
    if pool.len() == 0 {
        Seq::empty()
    } else {
        let w = spec_tiff_warnings(pool.drop_last());
        if pool.last().1.use_count == 0 {
            w.push(WarningView { kind: UnusedKind::TiffDisplay, id: pool.last().0 })
        } else {
            w
        }
    }
}

/// The unused-definition warnings for the pooled voxel mappings.
pub open spec fn spec_voxel_warnings(pool: Seq<(Seq<char>, VoxelMappingDefinitionView)>) -> Seq<
    WarningView,
>
    decreases pool.len(),
{
    if pool.len() == 0 {
        Seq::empty()
    } else {
        let w = spec_voxel_warnings(pool.drop_last());
        if pool.last().1.use_count() == 0 {
            w.push(WarningView { kind: UnusedKind::VoxelMapping, id: pool.last().0 })
        } else {
            w
        }
    }
}

/// The unused-definition warnings for the referenceable groups.
pub open spec fn spec_group_warnings(gs: Seq<GroupView>) -> Seq<WarningView>
    decreases gs.len(),
{
    if gs.len() == 0 {
        Seq::empty()
    } else {
        let w = spec_group_warnings(gs.drop_last());
        if gs.last().use_count == 0 {
            w.push(WarningView { kind: UnusedKind::Group, id: gs.last().id })
        } else {
            w
        }
    }
}

/// The unused-layer warnings.
pub open spec fn spec_layer_warnings(ls: Seq<LayerView>) -> Seq<WarningView>
    decreases ls.len(),
{
    if ls.len() == 0 {
        Seq::empty()
    } else {
        let w = spec_layer_warnings(ls.drop_last());
        if ls.last().use_count == 0 {
            w.push(WarningView { kind: UnusedKind::Layer, id: ls.last().id })
        } else {
            w
        }
    }
}

/// Builds the final configuration from a merged context and the root
/// document: the root's pooled displays get their steps derived, the
/// root's layers are resolved and join the known table, the top-level
/// groups are resolved, and every layer known after the merge stands in
/// the final layer list. Any error is attached to the root document's
/// display name. The warnings name every definition whose final use count
/// is zero: pooled displays, pooled voxel mappings, referenceable groups,
/// then layers, each in order.
pub open spec fn spec_build(
    ctx: ConfigContextView,
    root: ConfigView,
    table: Seq<ColorMapView>,
) -> Result<(ConfigView, Seq<WarningView>), ErrorView> {
    match spec_parse_displays(root.tiff_displays, table) {
        Err(e) => Err(spec_with_document(e, ctx.display)),
        Ok(tpool0) => match spec_parse_root_layers(
            root.layers,
            root.voxel_mappings,
            tpool0,
            table,
            ctx.known_layers,
        ) {
            Err(e) => Err(spec_with_document(e, ctx.display)),
            Ok((vpool, tpool, known)) => match spec_resolve_top_groups(
                root.groups,
                known,
                ctx.known_groups,
            ) {
                Err(e) => Err(spec_with_document(e, ctx.display)),
                Ok((gs, layers2, kgroups)) => Ok(
                    (
                        ConfigView {
                            includes: Seq::empty(),
                            layers: layers2,
                            groups: gs,
                            voxel_mappings: vpool,
                            tiff_displays: tpool,
                        },
                        spec_tiff_warnings(tpool) + spec_voxel_warnings(vpool)
                            + spec_group_warnings(kgroups) + spec_layer_warnings(layers2),
                    ),
                ),
            },
        },
    }
}

impl LayerConfigContext {
    /// Builds the final configuration from the merged context and the
    /// root document. The include list is dropped; every error is
    /// attached to the root document's display name; the returned
    /// warnings name every definition whose final use count is zero.
    #[verifier::loop_isolation(false)]
    pub fn build(self, root: LayerConfig, table: &ColorMapTable) -> (r: Result<
        (LayerConfig, Vec<UnusedWarning>),
        ConfigError,
    >)
        ensures
            match r {
                Ok((c, w)) => spec_build(self@, root@, table@) == Ok::<_, ErrorView>(
                    (c@, seq_view(w@)),
                ),
                Err(e) => spec_build(self@, root@, table@) == Err::<
                    (ConfigView, Seq<WarningView>),
                    _,
                >(e@),
            },
    {
        let LayerConfigContext { display, known_layers, known_groups } = self;
        let LayerConfig {
            includes: _,
            layers: root_layers,
            groups: root_groups,
            voxel_mappings,
            tiff_displays,
        } = root;
        proof {
            assert(self@.display == display@);
            assert(self@.known_layers == seq_view(known_layers@));
            assert(self@.known_groups == seq_view(known_groups@));
            assert(root@.layers == seq_view(root_layers@));
            assert(root@.groups == gors_view(root_groups@));
            assert(root@.voxel_mappings == pool_view(voxel_mappings@));
            assert(root@.tiff_displays == pool_view(tiff_displays@));
        }
        let mut known_layers = known_layers;
        let mut known_groups = known_groups;

        // Derive the legend steps of the pooled display definitions.
        let ghost tin = pool_view(tiff_displays@);
        let mut tpool: Vec<(String, TiffLayerBandDisplayDefinition)> = Vec::new();
        let mut k: usize = 0;
        proof {
            assert(tin.subrange(0, 0) =~= Seq::<(Seq<char>, DisplayDefinitionView)>::empty());
            assert(pool_view(tpool@) =~= Seq::<(Seq<char>, DisplayDefinitionView)>::empty());
        }
        while k < tiff_displays.len()
            invariant
                0 <= k <= tiff_displays@.len(),
                spec_parse_displays(tin.subrange(0, k as int), table@) == Ok::<_, ErrorView>(
                    pool_view(tpool@),
                ),
            decreases tiff_displays@.len() - k,
        {
            let ghost t_pre = pool_view(tpool@);
            let name = tiff_displays[k].0.clone();
            let def = tiff_displays[k].1.clone();
            match def.parse(table) {
                Ok(d) => {
                    tpool.push((name, d));
                    proof {
                        let prefix1 = tin.subrange(0, k as int + 1);
                        assert(prefix1.drop_last() =~= tin.subrange(0, k as int));
                        assert(prefix1.last() == tin[k as int]);
                        assert(pool_view(tpool@) =~= t_pre.push((tin[k as int].0, d@)));
                    }
                },
                Err(e) => {
                    proof {
                        lemma_parse_displays_err(tin, table@, k as int, e@);
                    }
                    return Err(with_document(e, &display));
                },
            }
            k += 1;
        }
        proof {
            assert(tin.subrange(0, tiff_displays@.len() as int) =~= tin);
        }
        let ghost tp0 = pool_view(tpool@);

        // Resolve the root document's layers and add them to the known
        // table.
        let mut vpool = voxel_mappings;
        let mut root_layers = root_layers;
        while root_layers.len() > 0
            invariant
                spec_parse_root_layers(
                    root@.layers,
                    root@.voxel_mappings,
                    tp0,
                    table@,
                    self@.known_layers,
                ) == spec_parse_root_layers(
                    seq_view(root_layers@),
                    pool_view(vpool@),
                    pool_view(tpool@),
                    table@,
                    seq_view(known_layers@),
                ),
            decreases root_layers@.len(),
        {
            let ghost rest_pre = seq_view(root_layers@);
            let ghost v_pre = pool_view(vpool@);
            let ghost t_pre = pool_view(tpool@);
            let ghost k_pre = seq_view(known_layers@);
            let l = root_layers.remove(0);
            proof {
                assert(seq_view(root_layers@) =~= rest_pre.subrange(1, rest_pre.len() as int));
                assert(rest_pre[0] == l@);
            }
            match l.parse(&mut vpool, &mut tpool, table) {
                Err(e) => {
                    return Err(with_document(e, &display));
                },
                Ok(l2) => {
                    match crate::group::find_layer(&known_layers, &l2.id) {
                        Some(_) => {
                            let e = ConfigError::DuplicateId {
                                kind: IdKind::Layer,
                                id: l2.id,
                            };
                            proof {
                                assert(spec_add_layer(k_pre, l2@) == Err::<
                                    Seq<LayerView>,
                                    ErrorView,
                                >(e@));
                            }
                            return Err(with_document(e, &display));
                        },
                        None => {
                            known_layers.push(l2);
                            proof {
                                assert(seq_view(known_layers@) =~= k_pre.push(l2@));
                            }
                        },
                    }
                },
            }
        }
        proof {
            assert(seq_view(root_layers@) =~= Seq::<LayerView>::empty());
        }
        let ghost l3 = seq_view(known_layers@);
        let ghost g3 = seq_view(known_groups@);

        // Resolve the top-level groups against the known tables.
        let mut out_groups: Vec<LayerGroupOrReference> = Vec::new();
        let ghost gall = gors_view(root_groups@);
        let mut k: usize = 0;
        proof {
            assert(gall.subrange(0, 0) =~= Seq::<GroupOrRefView>::empty());
            assert(gors_view(out_groups@) =~= Seq::<GroupOrRefView>::empty());
        }
        while k < root_groups.len()
            invariant
                0 <= k <= root_groups@.len(),
                spec_resolve_top_groups(gall.subrange(0, k as int), l3, g3) == Ok::<
                    _,
                    ErrorView,
                >((gors_view(out_groups@), seq_view(known_layers@), seq_view(known_groups@))),
            decreases root_groups@.len() - k,
        {
            let ghost s_pre = gors_view(out_groups@);
            let ghost l_pre = seq_view(known_layers@);
            let ghost g_pre = seq_view(known_groups@);
            proof {
                assert(gall[k as int] == root_groups@[k as int]@);
            }
            match &root_groups[k] {
                LayerGroupOrReference::Reference(name) => {
                    match find_group(&known_groups, name) {
                        Some(j) => {
                            let ghost jj = j as int;
                            let elem = &mut known_groups[j];
                            let c0 = elem.use_count;
                            elem.use_count = bump(c0);
                            proof {
                                assert(seq_view(known_groups@) =~= g_pre.update(
                                    jj,
                                    g_pre[jj].bumped(),
                                ));
                            }
                            let g = known_groups[j].clone();
                            proof {
                                assert(g@ == g_pre[jj].bumped());
                            }
                            out_groups.push(LayerGroupOrReference::Definition(g));
                        },
                        None => {
                            let e = ConfigError::UnknownReference {
                                kind: crate::error::ReferenceKind::Group,
                                name: name.clone(),
                                document: String::new(),
                            };
                            proof {
                                lemma_resolve_top_groups_err(gall, l3, g3, k as int, e@);
                            }
                            return Err(with_document(e, &display));
                        },
                    }
                },
                LayerGroupOrReference::Definition(d) => {
                    match d.resolve(&mut known_layers, &mut known_groups) {
                        Ok(d2) => {
                            out_groups.push(LayerGroupOrReference::Definition(d2));
                        },
                        Err(e) => {
                            proof {
                                lemma_resolve_top_groups_err(gall, l3, g3, k as int, e@);
                            }
                            return Err(with_document(e, &display));
                        },
                    }
                },
            }
            proof {
                let prefix1 = gall.subrange(0, k as int + 1);
                assert(prefix1.drop_last() =~= gall.subrange(0, k as int));
                assert(prefix1.last() == gall[k as int]);
                assert(gors_view(out_groups@) =~= s_pre.push(
                    gor_view(out_groups@[out_groups@.len() - 1]),
                ));
                assert(spec_resolve_top_groups(prefix1, l3, g3) == Ok::<_, ErrorView>(
                    (gors_view(out_groups@), seq_view(known_layers@), seq_view(known_groups@)),
                ));
            }
            k += 1;
        }
        proof {
            assert(gall.subrange(0, root_groups@.len() as int) =~= gall);
        }

        // Collect the unused-definition warnings.
        let mut warnings: Vec<UnusedWarning> = Vec::new();
        let ghost tfin = pool_view(tpool@);
        let ghost vfin = pool_view(vpool@);
        let ghost gfin = seq_view(known_groups@);
        let ghost lfin = seq_view(known_layers@);
        let mut k: usize = 0;
        proof {
            assert(tfin.subrange(0, 0) =~= Seq::<(Seq<char>, DisplayDefinitionView)>::empty());
            assert(seq_view(warnings@) =~= Seq::<WarningView>::empty());
        }
        while k < tpool.len()
            invariant
                0 <= k <= tpool@.len(),
                seq_view(warnings@) == spec_tiff_warnings(tfin.subrange(0, k as int)),
            decreases tpool@.len() - k,
        {
            let ghost w_pre = seq_view(warnings@);
            if tpool[k].1.use_count == 0 {
                warnings.push(
                    UnusedWarning { kind: UnusedKind::TiffDisplay, id: tpool[k].0.clone() },
                );
                proof {
                    assert(seq_view(warnings@) =~= w_pre.push(
                        WarningView { kind: UnusedKind::TiffDisplay, id: tfin[k as int].0 },
                    ));
                }
            }
            proof {
                let prefix1 = tfin.subrange(0, k as int + 1);
                assert(prefix1.drop_last() =~= tfin.subrange(0, k as int));
                assert(prefix1.last() == tfin[k as int]);
            }
            k += 1;
        }
        proof {
            assert(tfin.subrange(0, tpool@.len() as int) =~= tfin);
        }
        let mut k: usize = 0;
        proof {
            assert(vfin.subrange(0, 0) =~= Seq::<
                (Seq<char>, VoxelMappingDefinitionView),
            >::empty());
        }
        while k < vpool.len()
            invariant
                0 <= k <= vpool@.len(),
                seq_view(warnings@) == spec_tiff_warnings(tfin) + spec_voxel_warnings(
                    vfin.subrange(0, k as int),
                ),
            decreases vpool@.len() - k,
        {
            let ghost w_pre = seq_view(warnings@);
            if vpool[k].1.use_count() == 0 {
                warnings.push(
                    UnusedWarning { kind: UnusedKind::VoxelMapping, id: vpool[k].0.clone() },
                );
                proof {
                    assert(seq_view(warnings@) =~= w_pre.push(
                        WarningView { kind: UnusedKind::VoxelMapping, id: vfin[k as int].0 },
                    ));
                }
            }
            proof {
                let prefix1 = vfin.subrange(0, k as int + 1);
                assert(prefix1.drop_last() =~= vfin.subrange(0, k as int));
                assert(prefix1.last() == vfin[k as int]);
            }
            k += 1;
        }
        proof {
            assert(vfin.subrange(0, vpool@.len() as int) =~= vfin);
        }
        let mut k: usize = 0;
        proof {
            assert(gfin.subrange(0, 0) =~= Seq::<GroupView>::empty());
        }
        while k < known_groups.len()
            invariant
                0 <= k <= known_groups@.len(),
                seq_view(warnings@) == spec_tiff_warnings(tfin) + spec_voxel_warnings(vfin)
                    + spec_group_warnings(gfin.subrange(0, k as int)),
            decreases known_groups@.len() - k,
        {
            let ghost w_pre = seq_view(warnings@);
            if known_groups[k].use_count == 0 {
                warnings.push(
                    UnusedWarning { kind: UnusedKind::Group, id: known_groups[k].id.clone() },
                );
                proof {
                    assert(seq_view(warnings@) =~= w_pre.push(
                        WarningView { kind: UnusedKind::Group, id: gfin[k as int].id },
                    ));
                }
            }
            proof {
                let prefix1 = gfin.subrange(0, k as int + 1);
                assert(prefix1.drop_last() =~= gfin.subrange(0, k as int));
                assert(prefix1.last() == gfin[k as int]);
            }
            k += 1;
        }
        proof {
            assert(gfin.subrange(0, known_groups@.len() as int) =~= gfin);
        }
        let mut k: usize = 0;
        proof {
            assert(lfin.subrange(0, 0) =~= Seq::<LayerView>::empty());
        }
        while k < known_layers.len()
            invariant
                0 <= k <= known_layers@.len(),
                seq_view(warnings@) == spec_tiff_warnings(tfin) + spec_voxel_warnings(vfin)
                    + spec_group_warnings(gfin) + spec_layer_warnings(
                    lfin.subrange(0, k as int),
                ),
            decreases known_layers@.len() - k,
        {
            let ghost w_pre = seq_view(warnings@);
            if known_layers[k].use_count == 0 {
                warnings.push(
                    UnusedWarning { kind: UnusedKind::Layer, id: known_layers[k].id.clone() },
                );
                proof {
                    assert(seq_view(warnings@) =~= w_pre.push(
                        WarningView { kind: UnusedKind::Layer, id: lfin[k as int].id },
                    ));
                }
            }
            proof {
                let prefix1 = lfin.subrange(0, k as int + 1);
                assert(prefix1.drop_last() =~= lfin.subrange(0, k as int));
                assert(prefix1.last() == lfin[k as int]);
            }
            k += 1;
        }
        proof {
            assert(lfin.subrange(0, known_layers@.len() as int) =~= lfin);
        }

        let config = LayerConfig {
            includes: Vec::new(),
            layers: known_layers,
            groups: out_groups,
            voxel_mappings: vpool,
            tiff_displays: tpool,
        };
        proof {
            assert(config@.includes =~= Seq::<Seq<char>>::empty());
        }
        Ok((config, warnings))
    }
}

/// No two layers of the sequence share an id.
pub open spec fn spec_unique_layer_ids(ls: Seq<LayerView>) -> bool {
    forall|i: int, j: int| 0 <= i < j < ls.len() ==> ls[i].id != ls[j].id
}

/// Adding a layer through the duplicate check keeps the ids unique.
pub proof fn lemma_add_layer_unique(ls: Seq<LayerView>, l: LayerView)
    requires
        spec_unique_layer_ids(ls),
        spec_add_layer(ls, l) is Ok,
    ensures
        spec_unique_layer_ids(spec_add_layer(ls, l)->Ok_0),
{
    let out = ls.push(l);
    assert forall|i: int, j: int| 0 <= i < j < out.len() implies out[i].id != out[j].id by {
        if j == out.len() - 1 {
            assert(spec_layer_ids(ls)[i] == ls[i].id);
        }
    }
}

/// Adding a sequence of layers through the duplicate check keeps the ids
/// unique, and never loses an id that was already there.
pub proof fn lemma_add_layers_unique(ls: Seq<LayerView>, new: Seq<LayerView>)
    requires
        spec_unique_layer_ids(ls),
        spec_add_layers(ls, new) is Ok,
    ensures
        spec_unique_layer_ids(spec_add_layers(ls, new)->Ok_0),
        forall|id: Seq<char>|
            #[trigger] seq_contains_str(spec_layer_ids(ls), id) ==> seq_contains_str(
                spec_layer_ids(spec_add_layers(ls, new)->Ok_0),
                id,
            ),
    decreases new.len(),
{
    if new.len() == 0 {
    } else {
        lemma_add_layer_unique(ls, new[0]);
        let ls2 = spec_add_layer(ls, new[0])->Ok_0;
        lemma_add_layers_unique(ls2, new.subrange(1, new.len() as int));
        assert forall|id: Seq<char>|
            #[trigger] seq_contains_str(spec_layer_ids(ls), id) implies seq_contains_str(
            spec_layer_ids(ls2),
            id,
        ) by {
            let i = choose|i: int|
                0 <= i < spec_layer_ids(ls).len() && spec_layer_ids(ls)[i] == id;
            assert(spec_layer_ids(ls2)[i] == id);
        }
    }
}

/// Resolving and adding the root document's layers keeps the known ids
/// unique, and never loses an id that was already there.
pub proof fn lemma_parse_root_layers_unique(
    new: Seq<LayerView>,
    vpool: Seq<(Seq<char>, VoxelMappingDefinitionView)>,
    tpool: Seq<(Seq<char>, DisplayDefinitionView)>,
    table: Seq<ColorMapView>,
    known: Seq<LayerView>,
)
    requires
        spec_unique_layer_ids(known),
        spec_parse_root_layers(new, vpool, tpool, table, known) is Ok,
    ensures
        spec_unique_layer_ids(spec_parse_root_layers(new, vpool, tpool, table, known)->Ok_0.2),
        forall|id: Seq<char>|
            #[trigger] seq_contains_str(spec_layer_ids(known), id) ==> seq_contains_str(
                spec_layer_ids(spec_parse_root_layers(new, vpool, tpool, table, known)->Ok_0.2),
                id,
            ),
    decreases new.len(),
{
    if new.len() == 0 {
    } else {
        let (l2, vp, tp) = spec_parse_layer(new[0], vpool, tpool, table)->Ok_0;
        lemma_add_layer_unique(known, l2);
        let kn = spec_add_layer(known, l2)->Ok_0;
        lemma_parse_root_layers_unique(new.subrange(1, new.len() as int), vp, tp, table, kn);
        assert forall|id: Seq<char>|
            #[trigger] seq_contains_str(spec_layer_ids(known), id) implies seq_contains_str(
            spec_layer_ids(kn),
            id,
        ) by {
            let i = choose|i: int|
                0 <= i < spec_layer_ids(known).len() && spec_layer_ids(known)[i] == id;
            assert(spec_layer_ids(kn)[i] == id);
        }
    }
}

/// Resolving the top-level groups rewrites the known layers only by
/// incrementing use counts: the ids, in order, stay the same.
pub proof fn lemma_resolve_top_groups_preserves_ids(
    gs: Seq<GroupOrRefView>,
    layers: Seq<LayerView>,
    groups: Seq<GroupView>,
)
    requires
        spec_resolve_top_groups(gs, layers, groups) is Ok,
    ensures
        spec_layer_ids(spec_resolve_top_groups(gs, layers, groups)->Ok_0.1) =~= spec_layer_ids(
            layers,
        ),
        spec_group_ids(spec_resolve_top_groups(gs, layers, groups)->Ok_0.2) =~= spec_group_ids(
            groups,
        ),
        forall|j: int|
            0 <= j < groups.len() ==> #[trigger] spec_resolve_top_groups(
                gs,
                layers,
                groups,
            )->Ok_0.2[j].children == groups[j].children,
    decreases gs.len(),
{
    if gs.len() == 0 {
    } else {
        let prefix = gs.drop_last();
        lemma_resolve_top_groups_preserves_ids(prefix, layers, groups);
        let (_, l1, g1) = spec_resolve_top_groups(prefix, layers, groups)->Ok_0;
        match gs.last() {
            GroupOrRefView::Reference(name) => {
                if seq_contains_str(spec_group_ids(g1), name) {
                    crate::pool::lemma_first_key_found(spec_group_ids(g1), name);
                    let j = spec_first_key(spec_group_ids(g1), name);
                    assert(spec_group_ids(g1.update(j, g1[j].bumped())) =~= spec_group_ids(g1));
                }
            },
            GroupOrRefView::Definition(d) => {
                crate::group::lemma_resolve_group_preserves_ids(*d, l1, g1);
            },
        }
    }
}

/// In a built configuration, no two layers share an id: the merge's
/// duplicate check is the only gate layers pass, and resolution never
/// changes an id.
pub proof fn lemma_build_unique_layer_ids(
    ctx: ConfigContextView,
    root: ConfigView,
    table: Seq<ColorMapView>,
)
    requires
        spec_unique_layer_ids(ctx.known_layers),
        spec_build(ctx, root, table) is Ok,
    ensures
        spec_unique_layer_ids(spec_build(ctx, root, table)->Ok_0.0.layers),
{
    let tpool0 = spec_parse_displays(root.tiff_displays, table)->Ok_0;
    lemma_parse_root_layers_unique(
        root.layers,
        root.voxel_mappings,
        tpool0,
        table,
        ctx.known_layers,
    );
    let (_, _, known) = spec_parse_root_layers(
        root.layers,
        root.voxel_mappings,
        tpool0,
        table,
        ctx.known_layers,
    )->Ok_0;
    lemma_resolve_top_groups_preserves_ids(root.groups, known, ctx.known_groups);
    let layers2 = spec_resolve_top_groups(root.groups, known, ctx.known_groups)->Ok_0.1;
    assert(spec_layer_ids(layers2) == spec_layer_ids(known));
    assert forall|i: int, j: int| 0 <= i < j < layers2.len() implies layers2[i].id
        != layers2[j].id by {
        assert(spec_layer_ids(layers2)[i] == layers2[i].id);
        assert(spec_layer_ids(layers2)[j] == layers2[j].id);
        assert(spec_layer_ids(known)[i] == known[i].id);
        assert(spec_layer_ids(known)[j] == known[j].id);
    }
}

/// Adding layers of which one redefines an already-known id always fails
/// with a duplicate layer id.
pub proof fn lemma_add_layers_collision(ls: Seq<LayerView>, new: Seq<LayerView>)
    requires
        exists|i: int|
            #![trigger new[i]]
            0 <= i < new.len() && seq_contains_str(spec_layer_ids(ls), new[i].id),
    ensures
        spec_add_layers(ls, new) matches Err(e) && e matches ErrorView::DuplicateId {
            kind: IdKind::Layer,
            id: _,
        },
    decreases new.len(),
{
    let i = choose|i: int|
        #![trigger new[i]]
        0 <= i < new.len() && seq_contains_str(spec_layer_ids(ls), new[i].id);
    if seq_contains_str(spec_layer_ids(ls), new[0].id) {
    } else {
        assert(i >= 1);
        let ls2 = ls.push(new[0]);
        let rest = new.subrange(1, new.len() as int);
        assert(rest[i - 1] == new[i]);
        assert(seq_contains_str(spec_layer_ids(ls2), new[i].id)) by {
            let k = choose|k: int|
                0 <= k < spec_layer_ids(ls).len() && spec_layer_ids(ls)[k] == new[i].id;
            assert(spec_layer_ids(ls2)[k] == new[i].id);
        }
        lemma_add_layers_collision(ls2, rest);
    }
}

/// Merging a document that redefines an already-known layer id always
/// fails with a duplicate layer id, whichever document was merged first.
pub proof fn lemma_merge_duplicate_id(ctx: ConfigContextView, other: ConfigView)
    requires
        exists|i: int|
            #![trigger other.layers[i]]
            0 <= i < other.layers.len() && seq_contains_str(
                spec_layer_ids(ctx.known_layers),
                other.layers[i].id,
            ),
    ensures
        spec_merge(ctx, other) matches Err(e) && e matches ErrorView::DuplicateId {
            kind: IdKind::Layer,
            id: _,
        },
{
    lemma_add_layers_collision(ctx.known_layers, other.layers);
}

} // verus!
