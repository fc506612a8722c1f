use layer_config::colormap::{ColorMap, ColorMapEntry, ColorMapTable, TiffColorMapName};
use layer_config::contains_string;
use layer_config::error::{ConfigError, ReferenceKind};
use layer_config::group::{GroupChildShape, classify_group_child};
use layer_config::opacity::LayerOpacity;
use layer_config::paths::{join_relative, parent_dir, with_default_extension};
use layer_config::tiles3d::Tiles3dLayerOrderOfProperties;

#[test]
fn the_default_extension_is_appended_when_missing() {
    assert_eq!(with_default_extension("layers".to_string()), "layers.json5");
    assert_eq!(with_default_extension("dir/conf".to_string()), "dir/conf.json5");
    assert_eq!(with_default_extension("".to_string()), ".json5");
}

#[test]
fn the_default_extension_is_kept_when_present() {
    assert_eq!(with_default_extension("layers.json5".to_string()), "layers.json5");
    assert_eq!(with_default_extension("a/b.json5".to_string()), "a/b.json5");
}

#[test]
fn parent_directories() {
    assert_eq!(parent_dir(&"a/b/c.json5".to_string()), "a/b");
    assert_eq!(parent_dir(&"c.json5".to_string()), "");
    assert_eq!(parent_dir(&"/c.json5".to_string()), "");
    assert_eq!(parent_dir(&"a/".to_string()), "a");
}

#[test]
fn relative_paths_resolve_against_the_parent_directory() {
    assert_eq!(join_relative(&"a/b".to_string(), &"x.json5".to_string()), "a/b/x.json5");
    assert_eq!(join_relative(&"".to_string(), &"x.json5".to_string()), "x.json5");
    assert_eq!(join_relative(&"a".to_string(), &"/abs.json5".to_string()), "/abs.json5");
}

#[test]
fn child_shapes_follow_the_decode_precedence() {
    // A single-key object with a path key is a link, even over children.
    assert_eq!(classify_group_child(1, true, false), GroupChildShape::Link);
    assert_eq!(classify_group_child(1, true, true), GroupChildShape::Link);
    // Otherwise anything with children is a group.
    assert_eq!(classify_group_child(2, true, true), GroupChildShape::Group);
    assert_eq!(classify_group_child(1, false, true), GroupChildShape::Group);
    // Everything else falls back to a layer.
    assert_eq!(classify_group_child(2, true, false), GroupChildShape::Layer);
    assert_eq!(classify_group_child(0, false, false), GroupChildShape::Layer);
    assert_eq!(classify_group_child(1, false, false), GroupChildShape::Layer);
}

#[test]
fn color_map_names_match_their_files() {
    assert_eq!(TiffColorMapName::SwissBedrockBEM.name(), "swissBEDROCK_BEM");
    assert_eq!(TiffColorMapName::SwissBedrockAuthor.name(), "swissBEDROCK_Author");
    let all = TiffColorMapName::all();
    assert_eq!(all.len(), 6);
    assert_eq!(all[0], TiffColorMapName::SwissBedrockBEM);
}

#[test]
fn color_map_lookup() {
    let table = ColorMapTable {
        maps: vec![ColorMap {
            name: TiffColorMapName::SwissBedrockTMUD,
            entries: vec![ColorMapEntry { key: 2, color: (1, 2, 3, 255) }],
        }],
    };
    let entries = table.definition(TiffColorMapName::SwissBedrockTMUD).unwrap();
    assert_eq!(entries.len(), 1);
    assert_eq!(entries[0].key, 2);
    assert!(table.definition(TiffColorMapName::SwissBedrockBEM).is_none());
}

#[test]
fn opacity_defaults_to_fully_opaque() {
    assert_eq!(LayerOpacity::default(), LayerOpacity::Value(1000));
}

#[test]
fn property_order_emptiness() {
    assert!(Tiles3dLayerOrderOfProperties::default().is_empty());
    assert!(Tiles3dLayerOrderOfProperties::Definition(vec![]).is_empty());
    assert!(!Tiles3dLayerOrderOfProperties::Definition(vec!["a".to_string()]).is_empty());
    assert!(!Tiles3dLayerOrderOfProperties::Reference("n".to_string()).is_empty());
}

#[test]
fn string_membership() {
    let hay = vec!["a".to_string(), "b".to_string()];
    assert!(contains_string(&hay, &"a".to_string()));
    assert!(contains_string(&hay, &"b".to_string()));
    assert!(!contains_string(&hay, &"c".to_string()));
    assert!(!contains_string(&Vec::new(), &"a".to_string()));
}

#[test]
fn errors_carry_the_offending_document() {
    let e = ConfigError::UnknownReference {
        kind: ReferenceKind::Layer,
        name: "x".to_string(),
        document: String::new(),
    };
    match layer_config::error::with_document(e, &"root.json5".to_string()) {
        ConfigError::UnknownReference { document, name, .. } => {
            assert_eq!(document, "root.json5");
            assert_eq!(name, "x");
        }
        other => panic!("the error variant must be preserved, got {other:?}"),
    }
}
