//! Properties of the access filter, stated and proved over the same
//! specification functions that the filter's contracts use.

use vstd::prelude::*;
use crate::access::{
    ContextView, spec_allowed, spec_child_layer_ids, spec_children_layer_ids, spec_filter_child,
    spec_filter_children, spec_filter_config, spec_filter_group, spec_filter_top_group,
    spec_filter_top_groups, spec_group_layer_ids, spec_reachable_layers, spec_request_context,
    spec_top_layer_ids, spec_visible_layers,
};
use crate::config::{
    ConfigContextView, ConfigView, spec_add_layer, spec_add_layers, spec_build,
    spec_parse_displays, spec_parse_root_layers, spec_resolve_top_groups,
    lemma_resolve_top_groups_preserves_ids,
};
use crate::group::{
    ChildView, GroupOrRefView, GroupView, spec_group_ids, spec_layer_ids, spec_resolve_child,
    spec_resolve_children, spec_resolve_group, lemma_resolve_children_preserves_ids,
};
use crate::layer::LayerView;
use crate::pool::{lemma_first_key_found, spec_first_key};
use crate::seq_contains_str;

verus! {

/// Membership in an appended sequence is membership in either part.
pub proof fn lemma_append_contains(a: Seq<Seq<char>>, b: Seq<Seq<char>>, x: Seq<char>)
    ensures
        seq_contains_str(a + b, x) == (seq_contains_str(a, x) || seq_contains_str(b, x)),
{
    if seq_contains_str(a, x) {
        let i = choose|i: int| 0 <= i < a.len() && a[i] == x;
        assert((a + b)[i] == x);
    }
    if seq_contains_str(b, x) {
        let i = choose|i: int| 0 <= i < b.len() && b[i] == x;
        assert((a + b)[a.len() + i] == x);
    }
    if seq_contains_str(a + b, x) {
        let i = choose|i: int| 0 <= i < (a + b).len() && (a + b)[i] == x;
        if i < a.len() {
            assert(a[i] == x);
        } else {
            assert(b[i - a.len()] == x);
        }
    }
}

/// Every layer id reachable from a filtered group was accessible under the
/// context that filtered it.
pub proof fn lemma_filter_group_ids(g: GroupView, ctx: ContextView)
    requires
        spec_filter_group(g, ctx) is Some,
    ensures
        forall|id: Seq<char>|
            spec_group_layer_ids(spec_filter_group(g, ctx).unwrap()).contains(id)
                ==> seq_contains_str(ctx.accessible_layer_ids, id),
    decreases g,
{
    lemma_filter_children_ids(g.children, ctx);
}

/// Every layer id reachable from filtered children was accessible under
/// the context that filtered them.
pub proof fn lemma_filter_children_ids(cs: Seq<ChildView>, ctx: ContextView)
    ensures
        forall|id: Seq<char>|
            spec_children_layer_ids(spec_filter_children(cs, ctx)).contains(id)
                ==> seq_contains_str(ctx.accessible_layer_ids, id),
    decreases cs,
{
    if cs.len() == 0 {
    } else {
        let prefix = cs.subrange(0, cs.len() - 1);
        lemma_filter_children_ids(prefix, ctx);
        let w = spec_filter_children(prefix, ctx);
        match spec_filter_child(cs[cs.len() - 1], ctx) {
            Some(c) => {
                lemma_filter_child_ids(cs[cs.len() - 1], ctx);
                let full = w.push(c);
                assert(full.subrange(0, full.len() - 1) =~= w);
                assert(full[full.len() - 1] == c);
                assert(spec_children_layer_ids(full) == spec_children_layer_ids(w).union(
                    spec_child_layer_ids(c),
                ));
            },
            None => {},
        }
    }
}

/// Every layer id reachable from a filtered child was accessible under the
/// context that filtered it.
pub proof fn lemma_filter_child_ids(c: ChildView, ctx: ContextView)
    requires
        spec_filter_child(c, ctx) is Some,
    ensures
        forall|id: Seq<char>|
            spec_child_layer_ids(spec_filter_child(c, ctx).unwrap()).contains(id)
                ==> seq_contains_str(ctx.accessible_layer_ids, id),
    decreases c,
{
    match c {
        ChildView::Layer(_) => {},
        ChildView::Group(GroupOrRefView::Reference(_)) => {},
        ChildView::Group(GroupOrRefView::Definition(sub)) => {
            if spec_filter_group(*sub, ctx) is Some {
                lemma_filter_group_ids(*sub, ctx);
            }
        },
    }
}

/// The layer ids reachable from an entry of the filtered top-level list
/// all lie in the reachable set of the whole list.
pub proof fn lemma_top_entry_ids(gs: Seq<GroupOrRefView>, j: int)
    requires
        0 <= j < gs.len(),
    ensures
        gs[j] matches GroupOrRefView::Definition(d) ==> spec_group_layer_ids(
            *d,
        ).subset_of(spec_top_layer_ids(gs)),
    decreases gs.len(),
{
    if j == gs.len() - 1 {
        assert(spec_top_layer_ids(gs) == spec_top_layer_ids(gs.drop_last()).union(
            match gs.last() {
                GroupOrRefView::Definition(d) => spec_group_layer_ids(*d),
                GroupOrRefView::Reference(_) => Set::empty(),
            },
        ));
    } else {
        lemma_top_entry_ids(gs.drop_last(), j);
        assert(gs.drop_last()[j] == gs[j]);
        assert(spec_top_layer_ids(gs) == spec_top_layer_ids(gs.drop_last()).union(
            match gs.last() {
                GroupOrRefView::Definition(d) => spec_group_layer_ids(*d),
                GroupOrRefView::Reference(_) => Set::empty(),
            },
        ));
    }
}

/// The layers kept by the reachability pass are exactly those visible
/// layers whose id lies in the reachable set: membership of an id in the
/// result's ids means the id was in the input's ids and reachable.
pub proof fn lemma_reachable_ids(ls: Seq<LayerView>, reach: Set<Seq<char>>)
    ensures
        forall|id: Seq<char>|
            #[trigger] seq_contains_str(spec_layer_ids(spec_reachable_layers(ls, reach)), id) == (
            seq_contains_str(spec_layer_ids(ls), id) && reach.contains(id)),
    decreases ls.len(),
{
    let out = spec_reachable_layers(ls, reach);
    if ls.len() == 0 {
        assert forall|id: Seq<char>|
            seq_contains_str(spec_layer_ids(out), id) == (seq_contains_str(spec_layer_ids(ls), id)
                && reach.contains(id)) by {
            assert(spec_layer_ids(out).len() == 0);
            assert(spec_layer_ids(ls).len() == 0);
        }
    } else {
        let prefix = ls.drop_last();
        lemma_reachable_ids(prefix, reach);
        let w = spec_reachable_layers(prefix, reach);
        assert(ls =~= prefix.push(ls.last()));
        assert forall|id: Seq<char>|
            #[trigger] seq_contains_str(spec_layer_ids(out), id) == (seq_contains_str(
                spec_layer_ids(ls),
                id,
            ) && reach.contains(id)) by {
            lemma_ids_push(prefix, ls.last(), id);
            assert(seq_contains_str(spec_layer_ids(w), id) == (seq_contains_str(
                spec_layer_ids(prefix),
                id,
            ) && reach.contains(id)));
            if reach.contains(ls.last().id) {
                assert(out == w.push(ls.last()));
                lemma_ids_push(w, ls.last(), id);
            } else {
                assert(out == w);
            }
        }
    }
}

/// Membership in the ids of a pushed layer sequence.
pub proof fn lemma_ids_push(ls: Seq<LayerView>, l: LayerView, id: Seq<char>)
    ensures
        seq_contains_str(spec_layer_ids(ls.push(l)), id) == (seq_contains_str(
            spec_layer_ids(ls),
            id,
        ) || id == l.id),
        ls.push(l).drop_last() == ls,
{
    assert(ls.push(l).drop_last() =~= ls);
    let full = spec_layer_ids(ls.push(l));
    if seq_contains_str(spec_layer_ids(ls), id) {
        let i = choose|i: int| 0 <= i < ls.len() && spec_layer_ids(ls)[i] == id;
        assert(full[i] == id);
    }
    if id == l.id {
        assert(full[full.len() - 1] == id);
    }
    if seq_contains_str(full, id) {
        let i = choose|i: int| 0 <= i < full.len() && full[i] == id;
        if i < ls.len() {
            assert(spec_layer_ids(ls)[i] == id);
        }
    }
}

/// Every layer that passes the visibility pass carries an access rule that
/// grants access.
pub proof fn lemma_visible_allowed(ls: Seq<LayerView>, ctx: ContextView)
    ensures
        forall|i: int|
            0 <= i < spec_visible_layers(ls, ctx).len() ==> spec_allowed(
                #[trigger] spec_visible_layers(ls, ctx)[i].access,
                ctx,
            ),
    decreases ls.len(),
{
    if ls.len() > 0 {
        lemma_visible_allowed(ls.drop_last(), ctx);
    }
}

/// A sequence of layers that all pass their access rule is left unchanged
/// by the visibility pass.
pub proof fn lemma_visible_of_allowed(ls: Seq<LayerView>, ctx: ContextView)
    requires
        forall|i: int| 0 <= i < ls.len() ==> spec_allowed(#[trigger] ls[i].access, ctx),
    ensures
        spec_visible_layers(ls, ctx) == ls,
    decreases ls.len(),
{
    if ls.len() == 0 {
        assert(spec_visible_layers(ls, ctx) =~= ls);
    } else {
        let prefix = ls.drop_last();
        lemma_visible_of_allowed(prefix, ctx);
        assert(ls[ls.len() - 1] == ls.last());
        assert(spec_visible_layers(ls, ctx) == prefix.push(ls.last()));
        assert(prefix.push(ls.last()) =~= ls);
    }
}

/// Every layer kept by the reachability pass appears in the input, with
/// its id in the reachable set.
pub proof fn lemma_reachable_elements(ls: Seq<LayerView>, reach: Set<Seq<char>>)
    ensures
        forall|i: int|
            0 <= i < spec_reachable_layers(ls, reach).len() ==> reach.contains(
                #[trigger] spec_reachable_layers(ls, reach)[i].id,
            ),
        forall|i: int|
            0 <= i < spec_reachable_layers(ls, reach).len() ==> exists|j: int|
                0 <= j < ls.len() && ls[j] == #[trigger] spec_reachable_layers(ls, reach)[i],
    decreases ls.len(),
{
    if ls.len() > 0 {
        lemma_reachable_elements(ls.drop_last(), reach);
        assert forall|i: int|
            0 <= i < spec_reachable_layers(ls, reach).len() implies exists|j: int|
            0 <= j < ls.len() && ls[j] == #[trigger] spec_reachable_layers(ls, reach)[i] by {
            let w = spec_reachable_layers(ls.drop_last(), reach);
            if i < w.len() {
                let j = choose|j: int|
                    0 <= j < ls.drop_last().len() && ls.drop_last()[j] == w[i];
                assert(ls[j] == spec_reachable_layers(ls, reach)[i]);
            } else {
                assert(ls[ls.len() - 1] == spec_reachable_layers(ls, reach)[i]);
            }
        }
    }
}

/// A sequence of layers whose ids all lie in the reachable set is left
/// unchanged by the reachability pass.
pub proof fn lemma_reachable_of_reachable(ls: Seq<LayerView>, reach: Set<Seq<char>>)
    requires
        forall|i: int| 0 <= i < ls.len() ==> reach.contains(#[trigger] ls[i].id),
    ensures
        spec_reachable_layers(ls, reach) == ls,
    decreases ls.len(),
{
    if ls.len() == 0 {
        assert(spec_reachable_layers(ls, reach) =~= ls);
    } else {
        let prefix = ls.drop_last();
        lemma_reachable_of_reachable(prefix, reach);
        assert(ls[ls.len() - 1] == ls.last());
        assert(spec_reachable_layers(ls, reach) == prefix.push(ls.last()));
        assert(prefix.push(ls.last()) =~= ls);
    }
}

/// An access decision depends only on the caller's groups and the
/// environment, never on the accessible-layer set.
pub proof fn lemma_allowed_same_grant(
    access: Option<crate::access::AccessView>,
    ctx1: ContextView,
    ctx2: ContextView,
)
    requires
        ctx1.groups == ctx2.groups,
        ctx1.env == ctx2.env,
    ensures
        spec_allowed(access, ctx1) == spec_allowed(access, ctx2),
{
}

/// A filtered group, re-filtered under a context with the same grants
/// whose accessible set covers the group's layer ids, is unchanged.
pub proof fn lemma_filter_group_stable(g: GroupView, ctx1: ContextView, ctx2: ContextView)
    requires
        spec_filter_group(g, ctx1) is Some,
        ctx1.groups == ctx2.groups,
        ctx1.env == ctx2.env,
        forall|id: Seq<char>|
            spec_group_layer_ids(spec_filter_group(g, ctx1).unwrap()).contains(id)
                ==> seq_contains_str(ctx2.accessible_layer_ids, id),
    ensures
        spec_filter_group(spec_filter_group(g, ctx1).unwrap(), ctx2) == Some(
            spec_filter_group(g, ctx1).unwrap(),
        ),
    decreases g,
{
    let g1 = spec_filter_group(g, ctx1).unwrap();
    lemma_allowed_same_grant(g.access, ctx1, ctx2);
    lemma_filter_children_stable(g.children, ctx1, ctx2);
    assert(spec_filter_children(g1.children, ctx2) == g1.children);
}

/// Filtered children, re-filtered under a context with the same grants
/// whose accessible set covers their layer ids, are unchanged.
pub proof fn lemma_filter_children_stable(cs: Seq<ChildView>, ctx1: ContextView, ctx2: ContextView)
    requires
        ctx1.groups == ctx2.groups,
        ctx1.env == ctx2.env,
        forall|id: Seq<char>|
            spec_children_layer_ids(spec_filter_children(cs, ctx1)).contains(id)
                ==> seq_contains_str(ctx2.accessible_layer_ids, id),
    ensures
        spec_filter_children(spec_filter_children(cs, ctx1), ctx2) == spec_filter_children(
            cs,
            ctx1,
        ),
    decreases cs,
{
    let fcs = spec_filter_children(cs, ctx1);
    if cs.len() == 0 {
        assert(fcs =~= Seq::<ChildView>::empty());
    } else {
        let prefix = cs.subrange(0, cs.len() - 1);
        let w = spec_filter_children(prefix, ctx1);
        match spec_filter_child(cs[cs.len() - 1], ctx1) {
            Some(c) => {
                assert(fcs == w.push(c));
                assert(fcs.subrange(0, fcs.len() - 1) =~= w);
                assert(fcs[fcs.len() - 1] == c);
                assert(spec_children_layer_ids(fcs) == spec_children_layer_ids(w).union(
                    spec_child_layer_ids(c),
                ));
                lemma_filter_children_stable(prefix, ctx1, ctx2);
                lemma_filter_child_stable(cs[cs.len() - 1], ctx1, ctx2);
                assert(spec_filter_children(fcs, ctx2) == spec_filter_children(w, ctx2).push(c));
            },
            None => {
                assert(fcs == w);
                lemma_filter_children_stable(prefix, ctx1, ctx2);
            },
        }
    }
}

/// A filtered child, re-filtered under a context with the same grants
/// whose accessible set covers its layer ids, is unchanged.
pub proof fn lemma_filter_child_stable(c: ChildView, ctx1: ContextView, ctx2: ContextView)
    requires
        spec_filter_child(c, ctx1) is Some,
        ctx1.groups == ctx2.groups,
        ctx1.env == ctx2.env,
        forall|id: Seq<char>|
            spec_child_layer_ids(spec_filter_child(c, ctx1).unwrap()).contains(id)
                ==> seq_contains_str(ctx2.accessible_layer_ids, id),
    ensures
        spec_filter_child(spec_filter_child(c, ctx1).unwrap(), ctx2) == Some(
            spec_filter_child(c, ctx1).unwrap(),
        ),
    decreases c,
{
    match c {
        ChildView::Layer(id) => {
            assert(spec_child_layer_ids(c).contains(id));
        },
        ChildView::Group(GroupOrRefView::Reference(_)) => {},
        ChildView::Group(GroupOrRefView::Definition(sub)) => {
            lemma_filter_group_stable(*sub, ctx1, ctx2);
        },
    }
}

/// A filtered top-level list, re-filtered under a context with the same
/// grants whose accessible set covers the reachable layer ids, is
/// unchanged.
pub proof fn lemma_filter_top_groups_stable(
    gs: Seq<GroupOrRefView>,
    ctx1: ContextView,
    ctx2: ContextView,
)
    requires
        ctx1.groups == ctx2.groups,
        ctx1.env == ctx2.env,
        forall|id: Seq<char>|
            spec_top_layer_ids(spec_filter_top_groups(gs, ctx1)).contains(id)
                ==> seq_contains_str(ctx2.accessible_layer_ids, id),
    ensures
        spec_filter_top_groups(spec_filter_top_groups(gs, ctx1), ctx2) == spec_filter_top_groups(
            gs,
            ctx1,
        ),
    decreases gs.len(),
{
    let fgs = spec_filter_top_groups(gs, ctx1);
    if gs.len() == 0 {
        assert(fgs =~= Seq::<GroupOrRefView>::empty());
    } else {
        let prefix = gs.drop_last();
        let w = spec_filter_top_groups(prefix, ctx1);
        match spec_filter_top_group(gs.last(), ctx1) {
            Some(entry) => {
                assert(fgs == w.push(entry));
                assert(fgs.drop_last() =~= w);
                assert(fgs.last() == entry);
                assert(spec_top_layer_ids(fgs) == spec_top_layer_ids(w).union(
                    match entry {
                        GroupOrRefView::Definition(d) => spec_group_layer_ids(*d),
                        GroupOrRefView::Reference(_) => Set::empty(),
                    },
                ));
                lemma_filter_top_groups_stable(prefix, ctx1, ctx2);
                match gs.last() {
                    GroupOrRefView::Reference(_) => {
                        assert(spec_filter_top_group(entry, ctx2) == Some(entry));
                    },
                    GroupOrRefView::Definition(d) => {
                        lemma_filter_group_stable(*d, ctx1, ctx2);
                        assert(spec_filter_top_group(entry, ctx2) == Some(entry));
                    },
                }
                assert(spec_filter_top_groups(fgs, ctx2) == spec_filter_top_groups(
                    w,
                    ctx2,
                ).push(entry));
            },
            None => {
                assert(fgs == w);
                lemma_filter_top_groups_stable(prefix, ctx1, ctx2);
            },
        }
    }
}

/// Filtering an already-filtered configuration with the same context is a
/// no-op: the access filter is idempotent.
pub proof fn lemma_filter_idempotent(c: ConfigView, ctx: ContextView)
    ensures
        spec_filter_config(spec_filter_config(c, ctx), ctx) == spec_filter_config(c, ctx),
{
    let vis = spec_visible_layers(c.layers, ctx);
    let ctx1 = ContextView {
        accessible_layer_ids: ctx.accessible_layer_ids + spec_layer_ids(vis),
        ..ctx
    };
    let gs = spec_filter_top_groups(c.groups, ctx1);
    let reach = spec_top_layer_ids(gs);
    let layers1 = spec_reachable_layers(vis, reach);
    let c1 = spec_filter_config(c, ctx);
    assert(c1 == (ConfigView { layers: layers1, groups: gs, ..c }));

    // The kept layers all pass their access rule, so the second
    // visibility pass keeps them all.
    lemma_visible_allowed(c.layers, ctx);
    lemma_reachable_elements(vis, reach);
    assert forall|i: int| 0 <= i < layers1.len() implies spec_allowed(
        #[trigger] layers1[i].access,
        ctx,
    ) by {
        let j = choose|j: int| 0 <= j < vis.len() && vis[j] == layers1[i];
        assert(spec_allowed(vis[j].access, ctx));
    }
    lemma_visible_of_allowed(layers1, ctx);
    let ctx2 = ContextView {
        accessible_layer_ids: ctx.accessible_layer_ids + spec_layer_ids(layers1),
        ..ctx
    };

    // Every layer id reachable from the surviving groups lies in the
    // second context's accessible set.
    lemma_reachable_ids(vis, reach);
    assert forall|id: Seq<char>| spec_top_layer_ids(gs).contains(id) implies seq_contains_str(
        ctx2.accessible_layer_ids,
        id,
    ) by {
        lemma_top_ids_member(gs, id);
        let j = choose|j: int|
            #![trigger gs[j]]
            0 <= j < gs.len() && (gs[j] matches GroupOrRefView::Definition(d)
                && spec_group_layer_ids(*d).contains(id));
        lemma_filtered_entry_ids(c.groups, ctx1, j, id);
        lemma_append_contains(ctx.accessible_layer_ids, spec_layer_ids(vis), id);
        lemma_append_contains(ctx.accessible_layer_ids, spec_layer_ids(layers1), id);
        if seq_contains_str(spec_layer_ids(vis), id) {
            assert(seq_contains_str(spec_layer_ids(layers1), id));
        }
    }
    lemma_filter_top_groups_stable(c.groups, ctx1, ctx2);

    // The reachable set is unchanged, so the reachability pass keeps every
    // kept layer.
    assert forall|i: int| 0 <= i < layers1.len() implies reach.contains(
        #[trigger] layers1[i].id,
    ) by {}
    lemma_reachable_of_reachable(layers1, reach);
    assert(spec_filter_config(c1, ctx) =~= c1);
}

/// An id in the reachable set of a top-level list comes from some
/// definition entry of the list.
pub proof fn lemma_top_ids_member(gs: Seq<GroupOrRefView>, id: Seq<char>)
    requires
        spec_top_layer_ids(gs).contains(id),
    ensures
        exists|j: int|
            #![trigger gs[j]]
            0 <= j < gs.len() && (gs[j] matches GroupOrRefView::Definition(d)
                && spec_group_layer_ids(*d).contains(id)),
    decreases gs.len(),
{
    if gs.len() == 0 {
        assert(false);
    } else {
        if spec_top_layer_ids(gs.drop_last()).contains(id) {
            lemma_top_ids_member(gs.drop_last(), id);
            let j = choose|j: int|
                #![trigger gs.drop_last()[j]]
                0 <= j < gs.drop_last().len() && (gs.drop_last()[j]
                    matches GroupOrRefView::Definition(d) && spec_group_layer_ids(*d).contains(
                    id,
                ));
            assert(gs[j] == gs.drop_last()[j]);
        } else {
            assert(gs[gs.len() - 1] == gs.last());
        }
    }
}

/// Every layer id of an entry of the filtered top-level list was
/// accessible under the filtering context.
pub proof fn lemma_filtered_entry_ids(
    gs: Seq<GroupOrRefView>,
    ctx: ContextView,
    j: int,
    id: Seq<char>,
)
    requires
        0 <= j < spec_filter_top_groups(gs, ctx).len(),
        spec_filter_top_groups(gs, ctx)[j] matches GroupOrRefView::Definition(d)
            && spec_group_layer_ids(*d).contains(id),
    ensures
        seq_contains_str(ctx.accessible_layer_ids, id),
    decreases gs.len(),
{
    let fgs = spec_filter_top_groups(gs, ctx);
    if gs.len() == 0 {
        assert(false);
    } else {
        let prefix = gs.drop_last();
        let w = spec_filter_top_groups(prefix, ctx);
        match spec_filter_top_group(gs.last(), ctx) {
            Some(entry) => {
                assert(fgs == w.push(entry));
                if j < w.len() {
                    assert(fgs[j] == w[j]);
                    lemma_filtered_entry_ids(prefix, ctx, j, id);
                } else {
                    assert(fgs[j] == entry);
                    match gs.last() {
                        GroupOrRefView::Reference(_) => {},
                        GroupOrRefView::Definition(d) => {
                            lemma_filter_group_ids(*d, ctx);
                        },
                    }
                }
            },
            None => {
                assert(fgs == w);
                lemma_filtered_entry_ids(prefix, ctx, j, id);
            },
        }
    }
}

/// In a filtered configuration, a layer id is reachable from some
/// surviving group exactly when that layer stands in the filtered layer
/// list. The context is a fresh request context, whose accessible-layer
/// accumulator starts empty.
pub proof fn lemma_filter_sound(c: ConfigView, ctx: ContextView, id: Seq<char>)
    requires
        ctx.accessible_layer_ids == Seq::<Seq<char>>::empty(),
    ensures
        spec_top_layer_ids(spec_filter_config(c, ctx).groups).contains(id) == seq_contains_str(
            spec_layer_ids(spec_filter_config(c, ctx).layers),
            id,
        ),
{
    let vis = spec_visible_layers(c.layers, ctx);
    let ctx1 = ContextView {
        accessible_layer_ids: ctx.accessible_layer_ids + spec_layer_ids(vis),
        ..ctx
    };
    let gs = spec_filter_top_groups(c.groups, ctx1);
    let reach = spec_top_layer_ids(gs);
    lemma_reachable_ids(vis, reach);
    if reach.contains(id) {
        lemma_top_ids_member(gs, id);
        let j = choose|j: int|
            #![trigger gs[j]]
            0 <= j < gs.len() && (gs[j] matches GroupOrRefView::Definition(d)
                && spec_group_layer_ids(*d).contains(id));
        lemma_filtered_entry_ids(c.groups, ctx1, j, id);
        lemma_append_contains(ctx.accessible_layer_ids, spec_layer_ids(vis), id);
    }
}

/// One request context is at least as wide as another: same environment,
/// at least the same caller groups, and at least the same accessible
/// layer ids.
pub open spec fn ctx_wider(ctx: ContextView, ctxw: ContextView) -> bool {
    &&& forall|s: Seq<char>|
        seq_contains_str(ctx.groups, s) ==> #[trigger] seq_contains_str(ctxw.groups, s)
    &&& ctx.env == ctxw.env
    &&& forall|s: Seq<char>|
        seq_contains_str(ctx.accessible_layer_ids, s) ==> #[trigger] seq_contains_str(
            ctxw.accessible_layer_ids,
            s,
        )
}

/// Widening a context never revokes an access decision.
pub proof fn lemma_allowed_monotone(
    access: Option<crate::access::AccessView>,
    ctx: ContextView,
    ctxw: ContextView,
)
    requires
        ctx_wider(ctx, ctxw),
        spec_allowed(access, ctx),
    ensures
        spec_allowed(access, ctxw),
{
    match access {
        None => {},
        Some(a) => {
            if a.groups.len() > 0 {
                let i = choose|i: int|
                    0 <= i < a.groups.len() && seq_contains_str(ctx.groups, a.groups[i]);
                assert(seq_contains_str(ctxw.groups, a.groups[i]));
            }
        },
    }
}

/// Widening a context never removes a surviving group, and never shrinks
/// the set of layer ids its filtered tree exposes.
pub proof fn lemma_filter_group_monotone(g: GroupView, ctx: ContextView, ctxw: ContextView)
    requires
        ctx_wider(ctx, ctxw),
        spec_filter_group(g, ctx) is Some,
    ensures
        spec_filter_group(g, ctxw) is Some,
        spec_group_layer_ids(spec_filter_group(g, ctx).unwrap()).subset_of(
            spec_group_layer_ids(spec_filter_group(g, ctxw).unwrap()),
        ),
    decreases g,
{
    lemma_allowed_monotone(g.access, ctx, ctxw);
    lemma_filter_children_monotone(g.children, ctx, ctxw);
}

/// Widening a context never removes a surviving child, and never shrinks
/// the exposed layer ids.
pub proof fn lemma_filter_children_monotone(cs: Seq<ChildView>, ctx: ContextView, ctxw: ContextView)
    requires
        ctx_wider(ctx, ctxw),
    ensures
        spec_filter_children(cs, ctx).len() <= spec_filter_children(cs, ctxw).len(),
        spec_children_layer_ids(spec_filter_children(cs, ctx)).subset_of(
            spec_children_layer_ids(spec_filter_children(cs, ctxw)),
        ),
    decreases cs,
{
    if cs.len() == 0 {
    } else {
        let prefix = cs.subrange(0, cs.len() - 1);
        lemma_filter_children_monotone(prefix, ctx, ctxw);
        let w = spec_filter_children(prefix, ctx);
        let ww = spec_filter_children(prefix, ctxw);
        let last = cs[cs.len() - 1];
        match spec_filter_child(last, ctx) {
            Some(c) => {
                lemma_filter_child_monotone(last, ctx, ctxw);
                let cw = spec_filter_child(last, ctxw).unwrap();
                let f = w.push(c);
                let fw = ww.push(cw);
                assert(f.subrange(0, f.len() - 1) =~= w);
                assert(fw.subrange(0, fw.len() - 1) =~= ww);
                assert(spec_children_layer_ids(f) == spec_children_layer_ids(w).union(
                    spec_child_layer_ids(c),
                ));
                assert(spec_children_layer_ids(fw) == spec_children_layer_ids(ww).union(
                    spec_child_layer_ids(cw),
                ));
            },
            None => {
                match spec_filter_child(last, ctxw) {
                    Some(cw) => {
                        let fw = ww.push(cw);
                        assert(fw.subrange(0, fw.len() - 1) =~= ww);
                        assert(spec_children_layer_ids(fw) == spec_children_layer_ids(ww).union(
                            spec_child_layer_ids(cw),
                        ));
                    },
                    None => {},
                }
            },
        }
    }
}

/// Widening a context never removes a surviving child, and never shrinks
/// its exposed layer ids.
pub proof fn lemma_filter_child_monotone(c: ChildView, ctx: ContextView, ctxw: ContextView)
    requires
        ctx_wider(ctx, ctxw),
        spec_filter_child(c, ctx) is Some,
    ensures
        spec_filter_child(c, ctxw) is Some,
        spec_child_layer_ids(spec_filter_child(c, ctx).unwrap()).subset_of(
            spec_child_layer_ids(spec_filter_child(c, ctxw).unwrap()),
        ),
    decreases c,
{
    match c {
        ChildView::Layer(_) => {},
        ChildView::Group(GroupOrRefView::Reference(_)) => {},
        ChildView::Group(GroupOrRefView::Definition(sub)) => {
            lemma_filter_group_monotone(*sub, ctx, ctxw);
        },
    }
}

/// Widening a context never removes a surviving top-level group, and
/// never shrinks the reachable layer-id set.
pub proof fn lemma_filter_top_groups_monotone(
    gs: Seq<GroupOrRefView>,
    ctx: ContextView,
    ctxw: ContextView,
)
    requires
        ctx_wider(ctx, ctxw),
    ensures
        spec_top_layer_ids(spec_filter_top_groups(gs, ctx)).subset_of(
            spec_top_layer_ids(spec_filter_top_groups(gs, ctxw)),
        ),
        forall|i: int|
            0 <= i < gs.len() && #[trigger] spec_filter_top_group(gs[i], ctx) is Some
                ==> spec_filter_top_group(gs[i], ctxw) is Some,
    decreases gs.len(),
{
    if gs.len() == 0 {
    } else {
        let prefix = gs.drop_last();
        lemma_filter_top_groups_monotone(prefix, ctx, ctxw);
        let w = spec_filter_top_groups(prefix, ctx);
        let ww = spec_filter_top_groups(prefix, ctxw);
        let last = gs.last();
        assert(forall|i: int| 0 <= i < prefix.len() ==> prefix[i] == gs[i]);
        match last {
            GroupOrRefView::Reference(_) => {
                let f = w.push(last);
                let fw = ww.push(last);
                assert(f.drop_last() =~= w);
                assert(fw.drop_last() =~= ww);
            },
            GroupOrRefView::Definition(d) => {
                match spec_filter_group(*d, ctx) {
                    Some(g1) => {
                        lemma_filter_group_monotone(*d, ctx, ctxw);
                        let g1w = spec_filter_group(*d, ctxw).unwrap();
                        let f = w.push(GroupOrRefView::Definition(Box::new(g1)));
                        let fw = ww.push(GroupOrRefView::Definition(Box::new(g1w)));
                        assert(f.drop_last() =~= w);
                        assert(fw.drop_last() =~= ww);
                    },
                    None => {
                        match spec_filter_group(*d, ctxw) {
                            Some(g1w) => {
                                let fw = ww.push(
                                    GroupOrRefView::Definition(Box::new(g1w)),
                                );
                                assert(fw.drop_last() =~= ww);
                            },
                            None => {},
                        }
                    },
                }
            },
        }
    }
}

/// Ids of visible layers only grow when the context widens.
pub proof fn lemma_visible_ids_monotone(
    ls: Seq<LayerView>,
    ctx: ContextView,
    ctxw: ContextView,
    id: Seq<char>,
)
    requires
        ctx_wider(ctx, ctxw),
        seq_contains_str(spec_layer_ids(spec_visible_layers(ls, ctx)), id),
    ensures
        seq_contains_str(spec_layer_ids(spec_visible_layers(ls, ctxw)), id),
    decreases ls.len(),
{
    if ls.len() == 0 {
        assert(spec_layer_ids(spec_visible_layers(ls, ctx)).len() == 0);
    } else {
        let prefix = ls.drop_last();
        let w = spec_visible_layers(prefix, ctx);
        let ww = spec_visible_layers(prefix, ctxw);
        if spec_allowed(ls.last().access, ctx) {
            lemma_allowed_monotone(ls.last().access, ctx, ctxw);
            lemma_ids_push(w, ls.last(), id);
            lemma_ids_push(ww, ls.last(), id);
            if seq_contains_str(spec_layer_ids(w), id) {
                lemma_visible_ids_monotone(prefix, ctx, ctxw, id);
            }
        } else {
            lemma_visible_ids_monotone(prefix, ctx, ctxw, id);
            if spec_allowed(ls.last().access, ctxw) {
                lemma_ids_push(ww, ls.last(), id);
            }
        }
    }
}

/// Widening a request context (adding caller groups or accessible layer
/// ids, keeping the environment) never removes a layer from the filtered
/// configuration, and never removes a surviving top-level group.
pub proof fn lemma_filter_monotone(c: ConfigView, ctx: ContextView, ctxw: ContextView)
    requires
        ctx_wider(ctx, ctxw),
    ensures
        forall|id: Seq<char>|
            #[trigger] seq_contains_str(
                spec_layer_ids(spec_filter_config(c, ctx).layers),
                id,
            ) ==> seq_contains_str(spec_layer_ids(spec_filter_config(c, ctxw).layers), id),
        forall|i: int|
            0 <= i < c.groups.len() && #[trigger] spec_filter_top_group(
                c.groups[i],
                spec_request_context(c, ctx),
            ) is Some ==> spec_filter_top_group(c.groups[i], spec_request_context(c, ctxw))
                is Some,
{
    let vis = spec_visible_layers(c.layers, ctx);
    let visw = spec_visible_layers(c.layers, ctxw);
    let ctx1 = spec_request_context(c, ctx);
    let ctx1w = spec_request_context(c, ctxw);
    assert(ctx_wider(ctx1, ctx1w)) by {
        assert forall|s: Seq<char>|
            seq_contains_str(ctx1.accessible_layer_ids, s) implies #[trigger] seq_contains_str(
            ctx1w.accessible_layer_ids,
            s,
        ) by {
            lemma_append_contains(ctx.accessible_layer_ids, spec_layer_ids(vis), s);
            lemma_append_contains(ctxw.accessible_layer_ids, spec_layer_ids(visw), s);
            if seq_contains_str(spec_layer_ids(vis), s) {
                lemma_visible_ids_monotone(c.layers, ctx, ctxw, s);
            }
        }
    }
    let gs = spec_filter_top_groups(c.groups, ctx1);
    let gsw = spec_filter_top_groups(c.groups, ctx1w);
    lemma_filter_top_groups_monotone(c.groups, ctx1, ctx1w);
    let reach = spec_top_layer_ids(gs);
    let reachw = spec_top_layer_ids(gsw);
    lemma_reachable_ids(vis, reach);
    lemma_reachable_ids(visw, reachw);
    assert forall|id: Seq<char>|
        #[trigger] seq_contains_str(
            spec_layer_ids(spec_filter_config(c, ctx).layers),
            id,
        ) implies seq_contains_str(spec_layer_ids(spec_filter_config(c, ctxw).layers), id) by {
        assert(seq_contains_str(spec_layer_ids(vis), id) && reach.contains(id));
        lemma_visible_ids_monotone(c.layers, ctx, ctxw, id);
        assert(reachw.contains(id));
    }
}

/// The layer ids reachable from one top-level entry: those of a
/// definition's tree; a bare reference reaches none.
pub open spec fn spec_entry_layer_ids(e: GroupOrRefView) -> Set<Seq<char>> {
    match e {
        GroupOrRefView::Definition(d) => spec_group_layer_ids(*d),
        GroupOrRefView::Reference(_) => Set::empty(),
    }
}

/// Every layer id reachable from any group of the table lies among `ids`.
pub open spec fn spec_groups_backed(groups: Seq<GroupView>, ids: Seq<Seq<char>>) -> bool {
    forall|j: int, id: Seq<char>|
        0 <= j < groups.len() && #[trigger] spec_group_layer_ids(groups[j]).contains(id)
            ==> seq_contains_str(ids, id)
}

/// A resolved child only reaches layer ids that the known table holds.
pub proof fn lemma_resolve_child_backed(
    c: ChildView,
    layers: Seq<LayerView>,
    groups: Seq<GroupView>,
)
    requires
        spec_resolve_child(c, layers, groups) is Ok,
        spec_groups_backed(groups, spec_layer_ids(layers)),
    ensures
        forall|id: Seq<char>|
            #[trigger] spec_child_layer_ids(spec_resolve_child(c, layers, groups)->Ok_0.0).contains(
                id,
            ) ==> seq_contains_str(spec_layer_ids(layers), id),
    decreases c,
{
    match c {
        ChildView::Layer(lid) => {
            assert(seq_contains_str(spec_layer_ids(layers), lid));
            assert(spec_resolve_child(c, layers, groups)->Ok_0.0 == c);
            assert(spec_child_layer_ids(c) == Set::<Seq<char>>::empty().insert(lid));
            assert forall|id: Seq<char>|
                #[trigger] spec_child_layer_ids(
                    spec_resolve_child(c, layers, groups)->Ok_0.0,
                ).contains(id) implies seq_contains_str(spec_layer_ids(layers), id) by {
                assert(id == lid);
            }
        },
        ChildView::Group(GroupOrRefView::Reference(name)) => {
            lemma_first_key_found(spec_group_ids(groups), name);
            let j = spec_first_key(spec_group_ids(groups), name);
            assert(spec_group_layer_ids(groups[j].bumped()) == spec_group_layer_ids(groups[j]));
            assert forall|id: Seq<char>|
                #[trigger] spec_child_layer_ids(
                    spec_resolve_child(c, layers, groups)->Ok_0.0,
                ).contains(id) implies seq_contains_str(spec_layer_ids(layers), id) by {
                assert(spec_group_layer_ids(groups[j]).contains(id));
            }
        },
        ChildView::Group(GroupOrRefView::Definition(sub)) => {
            lemma_resolve_group_backed(*sub, layers, groups);
            assert forall|id: Seq<char>|
                #[trigger] spec_child_layer_ids(
                    spec_resolve_child(c, layers, groups)->Ok_0.0,
                ).contains(id) implies seq_contains_str(spec_layer_ids(layers), id) by {
                assert(spec_group_layer_ids(
                    spec_resolve_group(*sub, layers, groups)->Ok_0.0,
                ).contains(id));
            }
        },
    }
}

/// Resolved children only reach layer ids that the known table holds.
pub proof fn lemma_resolve_children_backed(
    cs: Seq<ChildView>,
    layers: Seq<LayerView>,
    groups: Seq<GroupView>,
)
    requires
        spec_resolve_children(cs, layers, groups) is Ok,
        spec_groups_backed(groups, spec_layer_ids(layers)),
    ensures
        forall|id: Seq<char>|
            #[trigger] spec_children_layer_ids(
                spec_resolve_children(cs, layers, groups)->Ok_0.0,
            ).contains(id) ==> seq_contains_str(spec_layer_ids(layers), id),
    decreases cs,
{
    if cs.len() == 0 {
    } else {
        let prefix = cs.subrange(0, cs.len() - 1);
        lemma_resolve_children_backed(prefix, layers, groups);
        let (s1, l1, g1) = spec_resolve_children(prefix, layers, groups)->Ok_0;
        lemma_resolve_children_preserves_ids(prefix, layers, groups);
        assert(spec_layer_ids(l1) == spec_layer_ids(layers));
        assert(spec_groups_backed(g1, spec_layer_ids(l1))) by {
            assert forall|j: int, id: Seq<char>|
                0 <= j < g1.len() && #[trigger] spec_group_layer_ids(g1[j]).contains(id)
                    implies seq_contains_str(spec_layer_ids(l1), id) by {
                assert(g1[j].children == groups[j].children);
                assert(spec_group_layer_ids(g1[j]) == spec_group_layer_ids(groups[j]));
            }
        }
        lemma_resolve_child_backed(cs[cs.len() - 1], l1, g1);
        let c2 = spec_resolve_child(cs[cs.len() - 1], l1, g1)->Ok_0.0;
        let full = s1.push(c2);
        assert(full.subrange(0, full.len() - 1) =~= s1);
        assert(full[full.len() - 1] == c2);
        assert(spec_children_layer_ids(full) == spec_children_layer_ids(s1).union(
            spec_child_layer_ids(c2),
        ));
    }
}

/// A resolved group only reaches layer ids that the known table holds.
pub proof fn lemma_resolve_group_backed(
    g: GroupView,
    layers: Seq<LayerView>,
    groups: Seq<GroupView>,
)
    requires
        spec_resolve_group(g, layers, groups) is Ok,
        spec_groups_backed(groups, spec_layer_ids(layers)),
    ensures
        forall|id: Seq<char>|
            #[trigger] spec_group_layer_ids(spec_resolve_group(g, layers, groups)->Ok_0.0).contains(
                id,
            ) ==> seq_contains_str(spec_layer_ids(layers), id),
    decreases g,
{
    lemma_resolve_children_backed(g.children, layers, groups);
    let cs2 = spec_resolve_children(g.children, layers, groups)->Ok_0.0;
    assert(spec_group_layer_ids(spec_resolve_group(g, layers, groups)->Ok_0.0)
        == spec_children_layer_ids(cs2));
}

/// Every resolved top-level group only reaches layer ids that the known
/// table holds.
pub proof fn lemma_resolve_top_groups_backed(
    gs: Seq<GroupOrRefView>,
    layers: Seq<LayerView>,
    groups: Seq<GroupView>,
)
    requires
        spec_resolve_top_groups(gs, layers, groups) is Ok,
        spec_groups_backed(groups, spec_layer_ids(layers)),
    ensures
        forall|k: int, id: Seq<char>|
            0 <= k < spec_resolve_top_groups(gs, layers, groups)->Ok_0.0.len()
                && #[trigger] spec_entry_layer_ids(
                spec_resolve_top_groups(gs, layers, groups)->Ok_0.0[k],
            ).contains(id) ==> seq_contains_str(spec_layer_ids(layers), id),
    decreases gs.len(),
{
    if gs.len() == 0 {
    } else {
        let prefix = gs.drop_last();
        lemma_resolve_top_groups_backed(prefix, layers, groups);
        let (s1, l1, g1) = spec_resolve_top_groups(prefix, layers, groups)->Ok_0;
        lemma_resolve_top_groups_preserves_ids(prefix, layers, groups);
        assert(spec_layer_ids(l1) == spec_layer_ids(layers));
        assert(spec_groups_backed(g1, spec_layer_ids(l1))) by {
            assert forall|j: int, id: Seq<char>|
                0 <= j < g1.len() && #[trigger] spec_group_layer_ids(g1[j]).contains(id)
                    implies seq_contains_str(spec_layer_ids(l1), id) by {
                assert(g1[j].children == groups[j].children);
                assert(spec_group_layer_ids(g1[j]) == spec_group_layer_ids(groups[j]));
            }
        }
        let out = spec_resolve_top_groups(gs, layers, groups)->Ok_0.0;
        match gs.last() {
            GroupOrRefView::Reference(name) => {
                lemma_first_key_found(spec_group_ids(g1), name);
                let j = spec_first_key(spec_group_ids(g1), name);
                assert(spec_group_layer_ids(g1[j].bumped()) == spec_group_layer_ids(g1[j]));
                assert(out =~= s1.push(
                    GroupOrRefView::Definition(Box::new(g1[j].bumped())),
                ));
            },
            GroupOrRefView::Definition(d) => {
                lemma_resolve_group_backed(*d, l1, g1);
                let d2 = spec_resolve_group(*d, l1, g1)->Ok_0.0;
                assert(out =~= s1.push(GroupOrRefView::Definition(Box::new(d2))));
            },
        }
        assert forall|k: int, id: Seq<char>|
            0 <= k < out.len() && #[trigger] spec_entry_layer_ids(out[k]).contains(id)
                implies seq_contains_str(spec_layer_ids(layers), id) by {
            if k < s1.len() {
                assert(out[k] == s1[k]);
            }
        }
    }
}

/// Adding layers never loses an id that was already known.
pub proof fn lemma_add_layers_monotone(ls: Seq<LayerView>, new: Seq<LayerView>)
    requires
        spec_add_layers(ls, new) is Ok,
    ensures
        forall|id: Seq<char>|
            #[trigger] seq_contains_str(spec_layer_ids(ls), id) ==> seq_contains_str(
                spec_layer_ids(spec_add_layers(ls, new)->Ok_0),
                id,
            ),
    decreases new.len(),
{
    if new.len() == 0 {
    } else {
        let ls2 = spec_add_layer(ls, new[0])->Ok_0;
        lemma_add_layers_monotone(ls2, new.subrange(1, new.len() as int));
        assert forall|id: Seq<char>|
            #[trigger] seq_contains_str(spec_layer_ids(ls), id) implies seq_contains_str(
            spec_layer_ids(ls2),
            id,
        ) by {
            let i = choose|i: int|
                0 <= i < spec_layer_ids(ls).len() && spec_layer_ids(ls)[i] == id;
            assert(spec_layer_ids(ls2)[i] == id);
        }
    }
}

/// Resolving and adding the root layers never loses a known id.
pub proof fn lemma_parse_root_layers_monotone(
    new: Seq<LayerView>,
    vpool: Seq<(Seq<char>, crate::voxel::VoxelMappingDefinitionView)>,
    tpool: Seq<(Seq<char>, crate::tiff::DisplayDefinitionView)>,
    table: Seq<crate::colormap::ColorMapView>,
    known: Seq<LayerView>,
)
    requires
        spec_parse_root_layers(new, vpool, tpool, table, known) is Ok,
    ensures
        forall|id: Seq<char>|
            #[trigger] seq_contains_str(spec_layer_ids(known), id) ==> seq_contains_str(
                spec_layer_ids(spec_parse_root_layers(new, vpool, tpool, table, known)->Ok_0.2),
                id,
            ),
    decreases new.len(),
{
    if new.len() == 0 {
    } else {
        let (l2, vp, tp) = crate::layer::spec_parse_layer(new[0], vpool, tpool, table)->Ok_0;
        let kn = spec_add_layer(known, l2)->Ok_0;
        lemma_parse_root_layers_monotone(new.subrange(1, new.len() as int), vp, tp, table, kn);
        assert forall|id: Seq<char>|
            #[trigger] seq_contains_str(spec_layer_ids(known), id) implies seq_contains_str(
            spec_layer_ids(kn),
            id,
        ) by {
            let i = choose|i: int|
                0 <= i < spec_layer_ids(known).len() && spec_layer_ids(known)[i] == id;
            assert(spec_layer_ids(kn)[i] == id);
        }
    }
}

/// In a built configuration, every layer id reachable from any top-level
/// group names a layer of the final layer list: each child reference has a
/// backing entry. The known groups are assumed to reach only merged layer
/// ids, which holds whenever they come from fully built included
/// documents.
pub proof fn lemma_build_references_backed(
    ctx: ConfigContextView,
    root: ConfigView,
    table: Seq<crate::colormap::ColorMapView>,
)
    requires
        spec_build(ctx, root, table) is Ok,
        spec_groups_backed(ctx.known_groups, spec_layer_ids(ctx.known_layers)),
    ensures
        forall|k: int, id: Seq<char>|
            0 <= k < spec_build(ctx, root, table)->Ok_0.0.groups.len()
                && #[trigger] spec_entry_layer_ids(
                spec_build(ctx, root, table)->Ok_0.0.groups[k],
            ).contains(id) ==> seq_contains_str(
                spec_layer_ids(spec_build(ctx, root, table)->Ok_0.0.layers),
                id,
            ),
{
    let tpool0 = spec_parse_displays(root.tiff_displays, table)->Ok_0;
    lemma_parse_root_layers_monotone(
        root.layers,
        root.voxel_mappings,
        tpool0,
        table,
        ctx.known_layers,
    );
    let known = spec_parse_root_layers(
        root.layers,
        root.voxel_mappings,
        tpool0,
        table,
        ctx.known_layers,
    )->Ok_0.2;
    assert(spec_groups_backed(ctx.known_groups, spec_layer_ids(known)));
    lemma_resolve_top_groups_backed(root.groups, known, ctx.known_groups);
    lemma_resolve_top_groups_preserves_ids(root.groups, known, ctx.known_groups);
    let (gs, layers2, _) = spec_resolve_top_groups(root.groups, known, ctx.known_groups)->Ok_0;
    assert(spec_layer_ids(layers2) == spec_layer_ids(known));
}

} // verus!
