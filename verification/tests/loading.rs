use layer_config::colormap::{ColorMap, ColorMapEntry, ColorMapTable, TiffColorMapName};
use layer_config::config::{LayerConfig, LayerConfigContext};
use layer_config::error::{ConfigError, IdKind, ReferenceKind, UnusedKind};
use layer_config::group::{LayerGroup, LayerGroupChild, LayerGroupOrReference};
use layer_config::layer::{Layer, LayerDetail};
use layer_config::opacity::LayerOpacity;
use layer_config::source::LayerSource;
use layer_config::tiff::{TiffLayer, TiffLayerBand, TiffLayerBandDisplay};
use layer_config::tiff::TiffLayerBandDisplayDefinition;
use layer_config::voxel::{
    VoxelLayer, VoxelLayerMapping, VoxelLayerValues, VoxelMappingDefinition, VoxelRangeMapping,
};
use layer_config::wmts::WmtsLayer;

fn layer(id: &str) -> Layer {
    Layer {
        id: id.to_string(),
        opacity: LayerOpacity::Value(1000),
        geocat_id: None,
        download_url: None,
        legend: None,
        custom_properties: Vec::new(),
        access: None,
        detail: LayerDetail::Wmts(WmtsLayer { max_level: None }),
        use_count: 0,
    }
}

fn group(id: &str, children: Vec<LayerGroupChild>) -> LayerGroup {
    LayerGroup { id: id.to_string(), children, access: None, use_count: 0 }
}

fn doc(layers: Vec<Layer>, groups: Vec<LayerGroupOrReference>) -> LayerConfig {
    let mut d = LayerConfig::new();
    d.layers = layers;
    d.groups = groups;
    d
}

fn empty_table() -> ColorMapTable {
    ColorMapTable { maps: vec![] }
}

#[test]
fn duplicate_layer_id_fails_the_merge() {
    let mut ctx = LayerConfigContext::new("root".to_string());
    ctx.merge(doc(vec![layer("x")], vec![])).unwrap();
    match ctx.merge(doc(vec![layer("x")], vec![])) {
        Err(ConfigError::DuplicateId { kind, id }) => {
            assert_eq!(kind, IdKind::Layer);
            assert_eq!(id, "x");
        }
        other => panic!("expected a duplicate layer id, got {other:?}"),
    }
}

#[test]
fn duplicate_layer_id_fails_regardless_of_order() {
    // The same two documents, merged the other way around.
    let mut ctx = LayerConfigContext::new("root".to_string());
    ctx.merge(doc(vec![layer("x"), layer("other")], vec![])).unwrap();
    match ctx.merge(doc(vec![layer("x")], vec![])) {
        Err(ConfigError::DuplicateId { kind, id }) => {
            assert_eq!(kind, IdKind::Layer);
            assert_eq!(id, "x");
        }
        other => panic!("expected a duplicate layer id, got {other:?}"),
    }
    let mut ctx2 = LayerConfigContext::new("root".to_string());
    ctx2.merge(doc(vec![layer("x")], vec![])).unwrap();
    match ctx2.merge(doc(vec![layer("x"), layer("other")], vec![])) {
        Err(ConfigError::DuplicateId { kind, id }) => {
            assert_eq!(kind, IdKind::Layer);
            assert_eq!(id, "x");
        }
        other => panic!("expected a duplicate layer id, got {other:?}"),
    }
}

#[test]
fn duplicate_group_id_fails_the_merge() {
    let mut ctx = LayerConfigContext::new("root".to_string());
    let g1 = LayerGroupOrReference::Definition(group("g", vec![]));
    let g2 = LayerGroupOrReference::Definition(group("g", vec![]));
    ctx.merge(doc(vec![], vec![g1])).unwrap();
    match ctx.merge(doc(vec![], vec![g2])) {
        Err(ConfigError::DuplicateId { kind, id }) => {
            assert_eq!(kind, IdKind::Group);
            assert_eq!(id, "g");
        }
        other => panic!("expected a duplicate group id, got {other:?}"),
    }
}

#[test]
fn bare_reference_in_included_document_is_structural() {
    let mut ctx = LayerConfigContext::new("root".to_string());
    let r = LayerGroupOrReference::Reference("g".to_string());
    match ctx.merge(doc(vec![], vec![r])) {
        Err(ConfigError::StructuralViolation { reference, .. }) => {
            assert_eq!(reference, "g");
        }
        other => panic!("expected a structural violation, got {other:?}"),
    }
}

#[test]
fn dangling_layer_reference_fails_the_build() {
    let ctx = LayerConfigContext::new("root".to_string());
    let g = LayerGroupOrReference::Definition(group(
        "g",
        vec![LayerGroupChild::Layer("x".to_string())],
    ));
    let root = doc(vec![], vec![g]);
    match ctx.build(root, &empty_table()) {
        Err(ConfigError::UnknownReference { kind, name, document }) => {
            assert_eq!(kind, ReferenceKind::Layer);
            assert_eq!(name, "x");
            assert_eq!(document, "root");
        }
        other => panic!("expected an unknown layer reference, got {other:?}"),
    }
}

#[test]
fn dangling_group_reference_fails_the_build() {
    let ctx = LayerConfigContext::new("root".to_string());
    let root = doc(vec![], vec![LayerGroupOrReference::Reference("missing".to_string())]);
    match ctx.build(root, &empty_table()) {
        Err(ConfigError::UnknownReference { kind, name, .. }) => {
            assert_eq!(kind, ReferenceKind::Group);
            assert_eq!(name, "missing");
        }
        other => panic!("expected an unknown group reference, got {other:?}"),
    }
}

#[test]
fn use_counts_and_unused_warnings() {
    let ctx = LayerConfigContext::new("root".to_string());
    let g1 = LayerGroupOrReference::Definition(group(
        "g1",
        vec![LayerGroupChild::Layer("a".to_string())],
    ));
    let g2 = LayerGroupOrReference::Definition(group(
        "g2",
        vec![LayerGroupChild::Layer("a".to_string())],
    ));
    let root = doc(vec![layer("a"), layer("b")], vec![g1, g2]);
    let (built, warnings) = ctx.build(root, &empty_table()).unwrap();

    let a = built.layers.iter().find(|l| l.id == "a").unwrap();
    assert_eq!(a.use_count, 2, "a layer referenced from two groups has use count 2");
    let b = built.layers.iter().find(|l| l.id == "b").unwrap();
    assert_eq!(b.use_count, 0, "an unplaced layer keeps use count 0");

    let unused: Vec<_> = warnings
        .iter()
        .filter(|w| w.kind == UnusedKind::Layer)
        .map(|w| w.id.as_str())
        .collect();
    assert_eq!(unused, vec!["b"], "only the unplaced layer warns");
}

#[test]
fn the_include_list_is_dropped_from_the_built_configuration() {
    let ctx = LayerConfigContext::new("root".to_string());
    let mut root = doc(vec![layer("a")], vec![]);
    root.includes = vec!["other.json5".to_string()];
    let (built, _) = ctx.build(root, &empty_table()).unwrap();
    assert!(built.includes.is_empty());
    assert_eq!(built.layers.len(), 1);
}

#[test]
fn merged_layers_come_before_root_layers() {
    let mut ctx = LayerConfigContext::new("root".to_string());
    ctx.merge(doc(vec![layer("first")], vec![])).unwrap();
    let (built, _) = ctx.build(doc(vec![layer("second")], vec![]), &empty_table()).unwrap();
    let ids: Vec<_> = built.layers.iter().map(|l| l.id.as_str()).collect();
    assert_eq!(ids, vec!["first", "second"]);
}

#[test]
fn group_reference_is_substituted_and_counted() {
    let mut ctx = LayerConfigContext::new("root".to_string());
    let shared = LayerGroupOrReference::Definition(group(
        "shared",
        vec![LayerGroupChild::Layer("a".to_string())],
    ));
    ctx.merge(doc(vec![layer("a")], vec![shared])).unwrap();
    let root = doc(vec![], vec![LayerGroupOrReference::Reference("shared".to_string())]);
    let (built, warnings) = ctx.build(root, &empty_table()).unwrap();
    match &built.groups[0] {
        LayerGroupOrReference::Definition(g) => {
            assert_eq!(g.id, "shared");
            assert_eq!(g.use_count, 1, "the substituted clone carries the bumped count");
        }
        other => panic!("expected the reference to be substituted, got {other:?}"),
    }
    assert!(
        !warnings.iter().any(|w| w.kind == UnusedKind::Group),
        "a referenced group does not warn"
    );
}

#[test]
fn unreferenced_known_group_warns() {
    let mut ctx = LayerConfigContext::new("root".to_string());
    let dead = LayerGroupOrReference::Definition(group("dead", vec![]));
    ctx.merge(doc(vec![], vec![dead])).unwrap();
    let (_, warnings) = ctx.build(doc(vec![], vec![]), &empty_table()).unwrap();
    assert!(warnings.iter().any(|w| w.kind == UnusedKind::Group && w.id == "dead"));
}

fn voxel_layer(id: &str, mapping: VoxelLayerMapping) -> Layer {
    let mut l = layer(id);
    l.detail = LayerDetail::Voxel(VoxelLayer {
        source: LayerSource::Url { url: "https://example.test/voxels".to_string() },
        data_key: "k".to_string(),
        values: VoxelLayerValues { no_data: -1, undefined: -2 },
        mappings: vec![mapping],
    });
    l
}

fn range_mapping() -> VoxelMappingDefinition {
    VoxelMappingDefinition::Range(VoxelRangeMapping {
        key: "k".to_string(),
        range: (0, 10),
        colors: vec!["#102030".to_string()],
        use_count: 0,
    })
}

#[test]
fn voxel_mapping_reference_is_bound_and_counted() {
    let ctx = LayerConfigContext::new("root".to_string());
    let mut root = doc(
        vec![voxel_layer("v", VoxelLayerMapping::Reference("m".to_string()))],
        vec![],
    );
    root.voxel_mappings = vec![("m".to_string(), range_mapping())];
    let (built, _) = ctx.build(root, &empty_table()).unwrap();
    match &built.layers[0].detail {
        LayerDetail::Voxel(v) => match &v.mappings[0] {
            VoxelLayerMapping::Definition(VoxelMappingDefinition::Range(r)) => {
                assert_eq!(r.key, "k");
                assert_eq!(r.use_count, 1);
            }
            other => panic!("expected a bound range mapping, got {other:?}"),
        },
        other => panic!("expected a voxel detail, got {other:?}"),
    }
    match &built.voxel_mappings[0].1 {
        VoxelMappingDefinition::Range(r) => assert_eq!(r.use_count, 1),
        other => panic!("expected the pool entry to be bumped, got {other:?}"),
    }
}

#[test]
fn unknown_voxel_mapping_fails_the_build() {
    let ctx = LayerConfigContext::new("root".to_string());
    let root = doc(
        vec![voxel_layer("v", VoxelLayerMapping::Reference("missing".to_string()))],
        vec![],
    );
    match ctx.build(root, &empty_table()) {
        Err(ConfigError::UnknownReference { kind, name, .. }) => {
            assert_eq!(kind, ReferenceKind::VoxelMapping);
            assert_eq!(name, "missing");
        }
        other => panic!("expected an unknown voxel mapping, got {other:?}"),
    }
}

#[test]
fn tiff_display_reference_is_bound_with_computed_steps() {
    let table = ColorMapTable {
        maps: vec![ColorMap {
            name: TiffColorMapName::SwissBedrockBEM,
            entries: vec![ColorMapEntry { key: 3, color: (0, 0, 0, 255) }],
        }],
    };
    let mut l = layer("t");
    l.detail = LayerDetail::Tiff(TiffLayer {
        source: LayerSource::S3 { bucket: "b".to_string(), key: "k".to_string() },
        terrain: None,
        cell_size: 10,
        bands: vec![TiffLayerBand {
            index: 1,
            name: "band".to_string(),
            unit: None,
            display: Some(TiffLayerBandDisplay::Reference("d".to_string())),
        }],
    });
    let ctx = LayerConfigContext::new("root".to_string());
    let mut root = doc(vec![l], vec![]);
    root.tiff_displays = vec![(
        "d".to_string(),
        TiffLayerBandDisplayDefinition {
            bounds: (0, 100),
            no_data: None,
            color_map: TiffColorMapName::SwissBedrockBEM,
            steps: None,
            is_discrete: false,
            use_count: 0,
        },
    )];
    let (built, warnings) = ctx.build(root, &table).unwrap();
    match &built.layers[0].detail {
        LayerDetail::Tiff(t) => match &t.bands[0].display {
            Some(TiffLayerBandDisplay::Definition(d)) => {
                assert_eq!(d.use_count, 1);
                assert!(d.steps.is_some(), "the pooled definition carries computed steps");
            }
            other => panic!("expected a bound display, got {other:?}"),
        },
        other => panic!("expected a tiff detail, got {other:?}"),
    }
    assert!(
        !warnings.iter().any(|w| w.kind == UnusedKind::TiffDisplay),
        "a referenced display does not warn"
    );
}

#[test]
fn unused_pool_entries_warn() {
    let ctx = LayerConfigContext::new("root".to_string());
    let mut root = doc(vec![], vec![]);
    root.voxel_mappings = vec![("m".to_string(), range_mapping())];
    let (_, warnings) = ctx.build(root, &empty_table()).unwrap();
    assert!(warnings.iter().any(|w| w.kind == UnusedKind::VoxelMapping && w.id == "m"));
}

#[test]
fn unknown_tiff_display_fails_the_build() {
    let mut l = layer("t");
    l.detail = LayerDetail::Tiff(TiffLayer {
        source: LayerSource::Url { url: "https://example.test/raster".to_string() },
        terrain: None,
        cell_size: 10,
        bands: vec![TiffLayerBand {
            index: 1,
            name: "band".to_string(),
            unit: None,
            display: Some(TiffLayerBandDisplay::Reference("missing".to_string())),
        }],
    });
    let ctx = LayerConfigContext::new("root".to_string());
    match ctx.build(doc(vec![l], vec![]), &empty_table()) {
        Err(ConfigError::UnknownReference { kind, name, .. }) => {
            assert_eq!(kind, ReferenceKind::TiffDisplay);
            assert_eq!(name, "missing");
        }
        other => panic!("expected an unknown display reference, got {other:?}"),
    }
}
