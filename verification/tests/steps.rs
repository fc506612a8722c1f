use layer_config::colormap::{ColorMap, ColorMapEntry, ColorMapTable, TiffColorMapName};
use layer_config::decimal::decimal_string;
use layer_config::error::{ConfigError, ReferenceKind};
use layer_config::tiff::{
    TiffLayerBandDisplayDefinition, TiffLayerBandStepValue, TiffLayerBandSteps,
};

fn display(bounds: (i32, i32), is_discrete: bool) -> TiffLayerBandDisplayDefinition {
    TiffLayerBandDisplayDefinition {
        bounds,
        no_data: None,
        color_map: TiffColorMapName::SwissBedrockBEM,
        steps: None,
        is_discrete,
        use_count: 0,
    }
}

fn pairs(steps: TiffLayerBandSteps) -> Vec<(i32, String)> {
    match steps {
        TiffLayerBandSteps::Labels(_) => panic!("expected computed values"),
        TiffLayerBandSteps::Values(vs) => vs
            .into_iter()
            .map(|v| match v {
                TiffLayerBandStepValue::Simple(_) => panic!("expected a labelled value"),
                TiffLayerBandStepValue::Labelled { value, label } => (value, label),
            })
            .collect(),
    }
}

fn labels(ls: &[&str]) -> TiffLayerBandSteps {
    TiffLayerBandSteps::Labels(ls.iter().map(|s| s.to_string()).collect())
}

#[test]
fn continuous_steps_from_bounds_ascending() {
    let d = display((0, 100), false);
    let got = pairs(d.make_steps_from_bounds());
    let want: Vec<(i32, String)> = [0, 20, 40, 60, 80, 100]
        .iter()
        .map(|v| (*v, v.to_string()))
        .collect();
    assert_eq!(got, want);
}

#[test]
fn continuous_steps_from_reversed_bounds_descending() {
    let d = display((100, 0), false);
    let got = pairs(d.make_steps_from_bounds());
    let want: Vec<(i32, String)> = [100, 80, 60, 40, 20, 0]
        .iter()
        .map(|v| (*v, v.to_string()))
        .collect();
    assert_eq!(got, want);
}

#[test]
fn discrete_labels_get_bucket_centers() {
    let d = display((0, 10), true);
    let got = pairs(d.normalize_steps(labels(&["low", "mid", "high"])));
    assert_eq!(
        got,
        vec![(2, "low".to_string()), (5, "mid".to_string()), (8, "high".to_string())]
    );
}

#[test]
fn continuous_labels_get_even_spread() {
    let d = display((0, 10), false);
    let got = pairs(d.normalize_steps(labels(&["a", "b", "c"])));
    assert_eq!(got, vec![(0, "a".to_string()), (5, "b".to_string()), (10, "c".to_string())]);
}

#[test]
fn single_continuous_label_degenerates_to_minimum() {
    let d = display((3, 9), false);
    let got = pairs(d.normalize_steps(labels(&["only"])));
    assert_eq!(got, vec![(3, "only".to_string())]);
}

#[test]
fn single_discrete_label_gets_midpoint() {
    let d = display((0, 10), true);
    let got = pairs(d.normalize_steps(labels(&["only"])));
    assert_eq!(got, vec![(5, "only".to_string())]);
}

#[test]
fn label_positions_ignore_reversed_bounds() {
    let d = display((10, 0), false);
    let got = pairs(d.normalize_steps(labels(&["a", "b", "c"])));
    assert_eq!(got, vec![(0, "a".to_string()), (5, "b".to_string()), (10, "c".to_string())]);
}

#[test]
fn explicit_values_pass_through_and_bare_values_get_labels() {
    let d = display((0, 10), false);
    let got = pairs(
        d.normalize_steps(TiffLayerBandSteps::Values(vec![
            TiffLayerBandStepValue::Simple(-3),
            TiffLayerBandStepValue::Labelled { value: 7, label: "seven".to_string() },
        ])),
    );
    assert_eq!(got, vec![(-3, "-3".to_string()), (7, "seven".to_string())]);
}

#[test]
fn discrete_steps_come_from_the_color_map() {
    let table = ColorMapTable {
        maps: vec![ColorMap {
            name: TiffColorMapName::SwissBedrockBEM,
            entries: vec![
                ColorMapEntry { key: 1, color: (10, 20, 30, 255) },
                ColorMapEntry { key: 5, color: (40, 50, 60, 255) },
                ColorMapEntry { key: 9, color: (70, 80, 90, 255) },
            ],
        }],
    };
    let d = display((0, 100), true);
    let got = pairs(d.make_steps_from_config(&table).unwrap());
    assert_eq!(
        got,
        vec![(1, "1".to_string()), (5, "5".to_string()), (9, "9".to_string())]
    );
}

#[test]
fn missing_color_map_is_a_fatal_error() {
    let table = ColorMapTable { maps: vec![] };
    let d = display((0, 100), true);
    match d.make_steps_from_config(&table) {
        Err(ConfigError::UnknownReference { kind, name, .. }) => {
            assert_eq!(kind, ReferenceKind::ColorMap);
            assert_eq!(name, "swissBEDROCK_BEM");
        }
        other => panic!("expected an unknown color map error, got {other:?}"),
    }
}

#[test]
fn parse_computes_and_caches_steps() {
    let table = ColorMapTable { maps: vec![] };
    let d = display((0, 100), false);
    let parsed = d.parse(&table).unwrap();
    let got = pairs(parsed.steps.expect("steps must be cached after parsing"));
    assert_eq!(got.len(), 6);
    assert_eq!(got[0], (0, "0".to_string()));
    assert_eq!(got[5], (100, "100".to_string()));
}

#[test]
fn rounding_is_to_the_nearest_integer() {
    let d = display((0, 1), false);
    let got = pairs(d.normalize_steps(labels(&["a", "b", "c"])));
    // Positions 0, 0.5 and 1: the half rounds up.
    assert_eq!(got, vec![(0, "a".to_string()), (1, "b".to_string()), (1, "c".to_string())]);
}

#[test]
fn decimal_text() {
    assert_eq!(decimal_string(0), "0");
    assert_eq!(decimal_string(7), "7");
    assert_eq!(decimal_string(-9), "-9");
    assert_eq!(decimal_string(12345), "12345");
    assert_eq!(decimal_string(-120), "-120");
    assert_eq!(decimal_string(i64::MIN), "-9223372036854775808");
    assert_eq!(decimal_string(i64::MAX), "9223372036854775807");
}

#[test]
fn equal_bounds_count_as_reversed() {
    // Equal bounds take the descending branch: six identical steps.
    let d = display((5, 5), false);
    let got = pairs(d.make_steps_from_bounds());
    assert_eq!(got.len(), 6);
    for (value, label) in got {
        assert_eq!(value, 5);
        assert_eq!(label, "5");
    }
}

#[test]
fn an_empty_label_list_yields_no_steps() {
    let d = display((0, 10), false);
    assert_eq!(pairs(d.normalize_steps(labels(&[]))), vec![]);
    let d = display((0, 10), true);
    assert_eq!(pairs(d.normalize_steps(labels(&[]))), vec![]);
}
