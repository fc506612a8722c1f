use layer_config::access::{Filter, FilterContext, LayerAccess};
use layer_config::config::LayerConfig;
use layer_config::group::{LayerGroup, LayerGroupChild, LayerGroupOrReference};
use layer_config::layer::{Layer, LayerDetail};
use layer_config::opacity::LayerOpacity;
use layer_config::wmts::WmtsLayer;

fn layer(id: &str, access: Option<LayerAccess>) -> Layer {
    Layer {
        id: id.to_string(),
        opacity: LayerOpacity::Value(1000),
        geocat_id: None,
        download_url: None,
        legend: None,
        custom_properties: Vec::new(),
        access,
        detail: LayerDetail::Wmts(WmtsLayer { max_level: None }),
        use_count: 0,
    }
}

fn rule(groups: &[&str], env: &[&str]) -> LayerAccess {
    LayerAccess {
        groups: groups.iter().map(|s| s.to_string()).collect(),
        env: env.iter().map(|s| s.to_string()).collect(),
    }
}

fn group(id: &str, access: Option<LayerAccess>, children: Vec<LayerGroupChild>) -> LayerGroup {
    LayerGroup { id: id.to_string(), children, access, use_count: 0 }
}

fn child(id: &str) -> LayerGroupChild {
    LayerGroupChild::Layer(id.to_string())
}

fn subgroup(g: LayerGroup) -> LayerGroupChild {
    LayerGroupChild::Group(LayerGroupOrReference::Definition(g))
}

fn config(layers: Vec<Layer>, groups: Vec<LayerGroup>) -> LayerConfig {
    let mut c = LayerConfig::new();
    c.layers = layers;
    c.groups = groups.into_iter().map(LayerGroupOrReference::Definition).collect();
    c
}

fn ctx(groups: &[&str], env: &str) -> FilterContext {
    FilterContext {
        groups: groups.iter().map(|s| s.to_string()).collect(),
        env: env.to_string(),
        accessible_layer_ids: Vec::new(),
    }
}

fn layer_ids(c: &LayerConfig) -> Vec<String> {
    c.layers.iter().map(|l| l.id.clone()).collect()
}

fn group_summary(g: &LayerGroup) -> String {
    let children: Vec<String> = g
        .children
        .iter()
        .map(|c| match c {
            LayerGroupChild::Layer(id) => format!("layer {id}"),
            LayerGroupChild::Group(LayerGroupOrReference::Definition(sub)) => group_summary(sub),
            LayerGroupChild::Group(LayerGroupOrReference::Reference(name)) => {
                format!("reference {name}")
            }
        })
        .collect();
    format!("{}[{}]", g.id, children.join(","))
}

fn summary(c: &LayerConfig) -> String {
    let groups: Vec<String> = c
        .groups
        .iter()
        .map(|g| match g {
            LayerGroupOrReference::Definition(g) => group_summary(g),
            LayerGroupOrReference::Reference(name) => format!("reference {name}"),
        })
        .collect();
    format!("layers:{} groups:{}", layer_ids(c).join(","), groups.join(","))
}

#[test]
fn a_public_layer_in_a_group_survives() {
    let c = config(vec![layer("a", None)], vec![group("g", None, vec![child("a")])]);
    let filtered = c.filter(&ctx(&[], "dev")).unwrap();
    assert_eq!(summary(&filtered), "layers:a groups:g[layer a]");
}

#[test]
fn a_group_restricted_layer_needs_a_matching_caller_group() {
    let c = config(
        vec![layer("a", Some(rule(&["admin"], &[])))],
        vec![group("g", None, vec![child("a")])],
    );
    let denied = c.filter(&ctx(&["viewer"], "dev")).unwrap();
    assert_eq!(summary(&denied), "layers: groups:");
    let c = config(
        vec![layer("a", Some(rule(&["admin"], &[])))],
        vec![group("g", None, vec![child("a")])],
    );
    let granted = c.filter(&ctx(&["admin", "viewer"], "dev")).unwrap();
    assert_eq!(summary(&granted), "layers:a groups:g[layer a]");
}

#[test]
fn an_env_restricted_layer_needs_the_matching_environment() {
    let build = || {
        config(
            vec![layer("a", Some(rule(&[], &["prod"])))],
            vec![group("g", None, vec![child("a")])],
        )
    };
    let denied = build().filter(&ctx(&[], "dev")).unwrap();
    assert_eq!(summary(&denied), "layers: groups:");
    let granted = build().filter(&ctx(&[], "prod")).unwrap();
    assert_eq!(summary(&granted), "layers:a groups:g[layer a]");
}

#[test]
fn both_rule_parts_must_match() {
    let build = || {
        config(
            vec![layer("a", Some(rule(&["admin"], &["prod"])))],
            vec![group("g", None, vec![child("a")])],
        )
    };
    assert_eq!(summary(&build().filter(&ctx(&["admin"], "dev")).unwrap()), "layers: groups:");
    assert_eq!(summary(&build().filter(&ctx(&[], "prod")).unwrap()), "layers: groups:");
    assert_eq!(
        summary(&build().filter(&ctx(&["admin"], "prod")).unwrap()),
        "layers:a groups:g[layer a]"
    );
}

#[test]
fn a_visible_layer_no_group_exposes_is_dropped() {
    let c = config(
        vec![layer("a", None), layer("hidden", None)],
        vec![group("g", None, vec![child("a")])],
    );
    let filtered = c.filter(&ctx(&[], "dev")).unwrap();
    assert_eq!(layer_ids(&filtered), vec!["a".to_string()]);
}

#[test]
fn a_group_with_no_surviving_children_is_dropped() {
    let c = config(
        vec![layer("a", Some(rule(&["admin"], &[])))],
        vec![group("g", None, vec![child("a")]), group("empty", None, vec![])],
    );
    let filtered = c.filter(&ctx(&[], "dev")).unwrap();
    assert_eq!(summary(&filtered), "layers: groups:");
}

#[test]
fn a_group_access_rule_hides_its_subtree() {
    let c = config(
        vec![layer("a", None)],
        vec![group("g", Some(rule(&["admin"], &[])), vec![child("a")])],
    );
    let filtered = c.filter(&ctx(&[], "dev")).unwrap();
    assert_eq!(summary(&filtered), "layers: groups:");
}

#[test]
fn nested_groups_filter_recursively() {
    let inner = group("inner", None, vec![child("a"), child("secret")]);
    let c = config(
        vec![layer("a", None), layer("secret", Some(rule(&["admin"], &[])))],
        vec![group("outer", None, vec![subgroup(inner)])],
    );
    let filtered = c.filter(&ctx(&[], "dev")).unwrap();
    assert_eq!(summary(&filtered), "layers:a groups:outer[inner[layer a]]");
}

#[test]
fn filtering_is_idempotent_on_a_mixed_tree() {
    let inner = group("inner", None, vec![child("a"), child("b")]);
    let c = config(
        vec![
            layer("a", None),
            layer("b", Some(rule(&["admin"], &[]))),
            layer("c", Some(rule(&[], &["prod"]))),
        ],
        vec![
            group("outer", None, vec![subgroup(inner), child("c")]),
            group("other", None, vec![child("b")]),
        ],
    );
    let once = c.filter(&ctx(&["viewer"], "dev")).unwrap();
    let first = summary(&once);
    let twice = once.filter(&ctx(&["viewer"], "dev")).unwrap();
    assert_eq!(summary(&twice), first, "a second filter with the same context is a no-op");
}

#[test]
fn widening_the_context_never_removes_layers() {
    let build = || {
        config(
            vec![
                layer("a", None),
                layer("b", Some(rule(&["admin"], &[]))),
            ],
            vec![group("g", None, vec![child("a"), child("b")])],
        )
    };
    let narrow = build().filter(&ctx(&[], "dev")).unwrap();
    let wide = build().filter(&ctx(&["admin"], "dev")).unwrap();
    for id in layer_ids(&narrow) {
        assert!(
            layer_ids(&wide).contains(&id),
            "layer {id} visible under the narrow context must stay visible"
        );
    }
    assert_eq!(layer_ids(&narrow), vec!["a".to_string()]);
    assert_eq!(layer_ids(&wide), vec!["a".to_string(), "b".to_string()]);
}

#[test]
fn soundness_on_a_filtered_config() {
    let c = config(
        vec![layer("a", None), layer("b", None), layer("unplaced", None)],
        vec![group("g", None, vec![child("a")]), group("h", None, vec![child("b")])],
    );
    let filtered = c.filter(&ctx(&[], "dev")).unwrap();
    // Every id in a surviving group's children is in the layer list, and
    // every listed layer appears in some surviving group.
    let mut exposed: Vec<String> = Vec::new();
    for g in &filtered.groups {
        if let LayerGroupOrReference::Definition(g) = g {
            for ch in &g.children {
                if let LayerGroupChild::Layer(id) = ch {
                    exposed.push(id.clone());
                }
            }
        }
    }
    let mut listed = layer_ids(&filtered);
    exposed.sort();
    listed.sort();
    assert_eq!(exposed, listed);
}

#[test]
fn group_references_pass_through_the_filter() {
    let mut c = LayerConfig::new();
    c.groups = vec![LayerGroupOrReference::Reference("elsewhere".to_string())];
    let filtered = c.filter(&ctx(&[], "dev")).unwrap();
    assert_eq!(summary(&filtered), "layers: groups:reference elsewhere");
}

#[test]
fn layer_filter_keeps_or_drops_a_single_layer() {
    let l = layer("a", Some(rule(&["admin"], &[])));
    assert!(l.filter(&ctx(&[], "dev")).is_none());
    let l = layer("a", Some(rule(&["admin"], &[])));
    assert!(l.filter(&ctx(&["admin"], "dev")).is_some());
    let l = layer("a", None);
    assert!(l.filter(&ctx(&[], "dev")).is_some());
}

#[test]
fn group_filter_drops_an_emptied_group() {
    let g = group("g", None, vec![child("a")]);
    let context = ctx(&[], "dev");
    assert!(g.filter(&context).is_none(), "no accessible ids, so no children survive");
    let g = group("g", None, vec![child("a")]);
    let mut context = ctx(&[], "dev");
    context.accessible_layer_ids.push("a".to_string());
    let kept = g.filter(&context).unwrap();
    assert_eq!(group_summary(&kept), "g[layer a]");
}
