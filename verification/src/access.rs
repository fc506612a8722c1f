//! Access rules and the per-request access filter.
//!
//! A layer or group may carry an access rule: a set of caller groups and a
//! set of environment names, each OR-matched. The filter projects a
//! resolved configuration down to the subset a caller may see.

use vstd::prelude::*;
use crate::{clone_strings, contains_string, seq_contains_str, seq_view, strings_view};
use crate::config::{ConfigView, LayerConfig, gors_view};
use crate::group::{
    ChildView, GroupOrRefView, GroupView, LayerGroup, LayerGroupChild, LayerGroupOrReference,
    child_view, children_view, gor_view, group_view, lemma_children_view, spec_layer_ids,
};
use crate::layer::{Layer, LayerView};

verus! {

/// An allow-list attached to a layer or group; absent means public.
#[derive(Debug)]
pub struct LayerAccess {
    /// Caller groups; access is granted if the caller belongs to at least
    /// one of them, or the list is empty.
    pub groups: Vec<String>,
    /// Environment names; access is granted if the deployment runs in one
    /// of them, or the list is empty.
    pub env: Vec<String>,
}

/// The mathematical value of a [`LayerAccess`].
#[verifier::ext_equal]
pub ghost struct AccessView {
    pub groups: Seq<Seq<char>>,
    pub env: Seq<Seq<char>>,
}

impl View for LayerAccess {
    type V = AccessView;

    open spec fn view(&self) -> AccessView {
        AccessView { groups: strings_view(self.groups@), env: strings_view(self.env@) }
    }
}

impl Clone for LayerAccess {
    fn clone(&self) -> (r: Self)
        ensures
            r@ == self@,
    {
        let r = LayerAccess { groups: clone_strings(&self.groups), env: clone_strings(&self.env) };
        proof {
            assert(r@ =~= self@);
        }
        r
    }
}

/// What a request may see: the caller's groups, the deployment environment,
/// and the layer ids already proven visible while filtering.
#[derive(Debug)]
pub struct FilterContext {
    /// The groups of the authenticated caller.
    pub groups: Vec<String>,
    /// The name of the environment the deployment runs in.
    pub env: String,
    /// The ids of layers already proven visible.
    pub accessible_layer_ids: Vec<String>,
}

/// The mathematical value of a [`FilterContext`].
#[verifier::ext_equal]
pub ghost struct ContextView {
    pub groups: Seq<Seq<char>>,
    pub env: Seq<char>,
    pub accessible_layer_ids: Seq<Seq<char>>,
}

impl View for FilterContext {
    type V = ContextView;

    open spec fn view(&self) -> ContextView {
        ContextView {
            groups: strings_view(self.groups@),
            env: self.env@,
            accessible_layer_ids: strings_view(self.accessible_layer_ids@),
        }
    }
}

impl Clone for FilterContext {
    fn clone(&self) -> (r: Self)
        ensures
            r@ == self@,
    {
        let r = FilterContext {
            groups: clone_strings(&self.groups),
            env: self.env.clone(),
            accessible_layer_ids: clone_strings(&self.accessible_layer_ids),
        };
        proof {
            assert(r@ =~= self@);
        }
        r
    }
}

/// Whether an optional access rule grants access under `ctx`: absent means
/// public; otherwise the caller must hold one of the rule's groups (or the
/// list is empty) and the deployment must run in one of the rule's
/// environments (or the list is empty).
pub open spec fn spec_allowed(access: Option<AccessView>, ctx: ContextView) -> bool {
    match access {
        None => true,
        Some(a) => (a.groups.len() == 0 || exists|i: int|
            0 <= i < a.groups.len() && seq_contains_str(ctx.groups, a.groups[i])) && (a.env.len()
            == 0 || seq_contains_str(a.env, ctx.env)),
    }
}

/// Decides an optional access rule under `ctx`.
pub fn allowed(access: &Option<LayerAccess>, ctx: &FilterContext) -> (r: bool)
    ensures
        r == spec_allowed(
            match access {
                Some(a) => Some(a@),
                None => None,
            },
            ctx@,
        ),
{
    let a = match access {
        None => {
            return true;
        },
        Some(a) => a,
    };
    let group_ok = if a.groups.len() == 0 {
        true
    } else {
        let mut found = false;
        let mut k: usize = 0;
        while k < a.groups.len()
            invariant
                0 <= k <= a.groups@.len(),
                found == exists|i: int|
                    0 <= i < k && seq_contains_str(ctx@.groups, a@.groups[i]),
            decreases a.groups@.len() - k,
        {
            if contains_string(&ctx.groups, &a.groups[k]) {
                proof {
                    assert(a@.groups[k as int] == a.groups@[k as int]@);
                }
                found = true;
            }
            proof {
                assert(a@.groups[k as int] == a.groups@[k as int]@);
            }
            k += 1;
        }
        found
    };
    if !group_ok {
        return false;
    }
    if a.env.len() != 0 && !contains_string(&a.env, &ctx.env) {
        return false;
    }
    true
}

/// Anything a caller may see is decided by `filter`: the value projected
/// down to the visible subset, or nothing at all.
pub trait Filter: Sized {
    fn filter(self, context: &FilterContext) -> Option<Self>;
}

/// The layers that pass their own access rule, in order, unchanged.
pub open spec fn spec_visible_layers(ls: Seq<LayerView>, ctx: ContextView) -> Seq<LayerView>
    decreases ls.len(),
{
    if ls.len() == 0 {
        Seq::empty()
    } else {
        let w = spec_visible_layers(ls.drop_last(), ctx);
        if spec_allowed(ls.last().access, ctx) {
            w.push(ls.last())
        } else {
            w
        }
    }
}

/// Filters one group child: a layer id is kept iff it is among the
/// accessible layer ids; a group reference passes through; an in-place
/// group is filtered recursively and dropped when nothing of it remains.
pub open spec fn spec_filter_child(c: ChildView, ctx: ContextView) -> Option<ChildView>
    decreases c,
{
    match c {
        ChildView::Layer(id) => {
            if seq_contains_str(ctx.accessible_layer_ids, id) {
                Some(c)
            } else {
                None
            }
        },
        ChildView::Group(GroupOrRefView::Reference(_)) => Some(c),
        ChildView::Group(GroupOrRefView::Definition(sub)) => {
            match spec_filter_group(*sub, ctx) {
                Some(g) => Some(ChildView::Group(GroupOrRefView::Definition(Box::new(g)))),
                None => None,
            }
        },
    }
}

/// Filters a sequence of group children, keeping document order.
pub open spec fn spec_filter_children(cs: Seq<ChildView>, ctx: ContextView) -> Seq<ChildView>
    decreases cs,
{
    if cs.len() == 0 {
        Seq::empty()
    } else {
        let w = spec_filter_children(cs.subrange(0, cs.len() - 1), ctx);
        match spec_filter_child(cs[cs.len() - 1], ctx) {
            Some(c) => w.push(c),
            None => w,
        }
    }
}

/// Filters one group: it must pass its own access rule, and at least one
/// child must survive; otherwise the group is dropped.
pub open spec fn spec_filter_group(g: GroupView, ctx: ContextView) -> Option<GroupView>
    decreases g,
{
    if !spec_allowed(g.access, ctx) {
        None
    } else {
        let cs = spec_filter_children(g.children, ctx);
        if cs.len() == 0 {
            None
        } else {
            Some(GroupView { children: cs, ..g })
        }
    }
}

/// Filters one top-level group entry: a definition is filtered; a bare
/// reference passes through.
pub open spec fn spec_filter_top_group(g: GroupOrRefView, ctx: ContextView) -> Option<
    GroupOrRefView,
> {
    match g {
        GroupOrRefView::Definition(d) => match spec_filter_group(*d, ctx) {
            Some(g2) => Some(GroupOrRefView::Definition(Box::new(g2))),
            None => None,
        },
        GroupOrRefView::Reference(_) => Some(g),
    }
}

/// Filters the top-level group entries, keeping document order.
pub open spec fn spec_filter_top_groups(gs: Seq<GroupOrRefView>, ctx: ContextView) -> Seq<
    GroupOrRefView,
>
    decreases gs.len(),
{
    if gs.len() == 0 {
        Seq::empty()
    } else {
        let w = spec_filter_top_groups(gs.drop_last(), ctx);
        match spec_filter_top_group(gs.last(), ctx) {
            Some(g) => w.push(g),
            None => w,
        }
    }
}

/// The layer ids reachable from a group's children: its layer-id children
/// and, transitively, those of its in-place subgroups.
pub open spec fn spec_group_layer_ids(g: GroupView) -> Set<Seq<char>>
    decreases g,
{
    spec_children_layer_ids(g.children)
}

/// The layer ids reachable from a sequence of group children.
pub open spec fn spec_children_layer_ids(cs: Seq<ChildView>) -> Set<Seq<char>>
    decreases cs,
{
    if cs.len() == 0 {
        Set::empty()
    } else {
        spec_children_layer_ids(cs.subrange(0, cs.len() - 1)).union(
            spec_child_layer_ids(cs[cs.len() - 1]),
        )
    }
}

/// The layer ids reachable from one group child.
pub open spec fn spec_child_layer_ids(c: ChildView) -> Set<Seq<char>>
    decreases c,
{
    match c {
        ChildView::Layer(id) => Set::empty().insert(id),
        ChildView::Group(GroupOrRefView::Reference(_)) => Set::empty(),
        ChildView::Group(GroupOrRefView::Definition(sub)) => spec_group_layer_ids(*sub),
    }
}

/// The layer ids reachable from the top-level group entries.
pub open spec fn spec_top_layer_ids(gs: Seq<GroupOrRefView>) -> Set<Seq<char>>
    decreases gs.len(),
{
    if gs.len() == 0 {
        Set::empty()
    } else {
        spec_top_layer_ids(gs.drop_last()).union(
            match gs.last() {
                GroupOrRefView::Definition(d) => spec_group_layer_ids(*d),
                GroupOrRefView::Reference(_) => Set::empty(),
            },
        )
    }
}

/// The layers whose id lies in `reach`, in order, unchanged.
pub open spec fn spec_reachable_layers(ls: Seq<LayerView>, reach: Set<Seq<char>>) -> Seq<
    LayerView,
>
    decreases ls.len(),
{
    if ls.len() == 0 {
        Seq::empty()
    } else {
        let w = spec_reachable_layers(ls.drop_last(), reach);
        if reach.contains(ls.last().id) {
            w.push(ls.last())
        } else {
            w
        }
    }
}

/// The context under which a configuration's groups are filtered: the
/// request context with the ids of every layer that passed its own access
/// rule added to the accessible set.
pub open spec fn spec_request_context(c: ConfigView, ctx: ContextView) -> ContextView {
    ContextView {
        accessible_layer_ids: ctx.accessible_layer_ids + spec_layer_ids(
            spec_visible_layers(c.layers, ctx),
        ),
        ..ctx
    }
}

/// Projects a configuration down to what `ctx` may see: the layers that
/// pass their own access rule, the groups that survive filtering with
/// those layers' ids accessible, and then only the layers that some
/// surviving group exposes.
pub open spec fn spec_filter_config(c: ConfigView, ctx: ContextView) -> ConfigView {
    let vis = spec_visible_layers(c.layers, ctx);
    let ctx1 = spec_request_context(c, ctx);
    let gs = spec_filter_top_groups(c.groups, ctx1);
    let reach = spec_top_layer_ids(gs);
    ConfigView { layers: spec_reachable_layers(vis, reach), groups: gs, ..c }
}

impl Filter for Layer {
    /// A layer is kept, unchanged, iff it passes its own access rule.
    fn filter(self, context: &FilterContext) -> (r: Option<Self>)
        ensures
            r == (if spec_allowed(self@.access, context@) {
                Some(self)
            } else {
                None
            }),
    {
        if allowed(&self.access, context) {
            Some(self)
        } else {
            None
        }
    }
}

/// Filters a group against the context: the group must pass its own
/// access rule; layer-id children are kept iff accessible; in-place
/// subgroups are filtered recursively; a group with no surviving children
/// is dropped.
fn filter_group(g: &LayerGroup, context: &FilterContext) -> (r: Option<LayerGroup>)
    ensures
        match r {
            Some(g2) => spec_filter_group(g@, context@) == Some(g2@),
            None => spec_filter_group(g@, context@) is None,
        },
    decreases g,
{
    if !allowed(&g.access, context) {
        return None;
    }
    let ghost all = children_view(g.children@);
    let mut out: Vec<LayerGroupChild> = Vec::new();
    let mut k: usize = 0;
    proof {
        lemma_children_view(g.children@);
        assert(all.subrange(0, 0) =~= Seq::<ChildView>::empty());
        assert(children_view(out@) =~= Seq::<ChildView>::empty());
        assert(spec_filter_children(all.subrange(0, 0), context@) =~= Seq::<ChildView>::empty());
    }
    while k < g.children.len()
        invariant
            0 <= k <= g.children@.len(),
            all == children_view(g.children@),
            all.len() == g.children@.len(),
            forall|i: int| 0 <= i < g.children@.len() ==> all[i] == child_view(g.children@[i]),
            children_view(out@) == spec_filter_children(all.subrange(0, k as int), context@),
        decreases g.children@.len() - k,
    {
        let ghost o_pre = out@;
        let ghost s_pre = children_view(out@);
        match &g.children[k] {
            LayerGroupChild::Layer(id) => {
                if contains_string(&context.accessible_layer_ids, id) {
                    out.push(LayerGroupChild::Layer(id.clone()));
                    proof {
                        assert(spec_filter_child(all[k as int], context@) == Some(
                            all[k as int],
                        ));
                        assert(child_view(out@[out@.len() - 1]) == all[k as int]);
                    }
                } else {
                    proof {
                        assert(spec_filter_child(all[k as int], context@) is None);
                    }
                }
            },
            LayerGroupChild::Group(LayerGroupOrReference::Reference(name)) => {
                out.push(LayerGroupChild::Group(LayerGroupOrReference::Reference(name.clone())));
                proof {
                    assert(spec_filter_child(all[k as int], context@) == Some(all[k as int]));
                    assert(child_view(out@[out@.len() - 1]) == all[k as int]);
                }
            },
            LayerGroupChild::Group(LayerGroupOrReference::Definition(sub)) => {
                match filter_group(sub, context) {
                    Some(g2) => {
                        out.push(LayerGroupChild::Group(LayerGroupOrReference::Definition(g2)));
                        proof {
                            assert(spec_filter_child(all[k as int], context@) == Some(
                                child_view(out@[out@.len() - 1]),
                            ));
                        }
                    },
                    None => {
                        proof {
                            assert(spec_filter_child(all[k as int], context@) is None);
                        }
                    },
                }
            },
        }
        proof {
            let prefix1 = all.subrange(0, k as int + 1);
            assert(prefix1.subrange(0, prefix1.len() - 1) =~= all.subrange(0, k as int));
            assert(prefix1[prefix1.len() - 1] == all[k as int]);
            if out@.len() > o_pre.len() {
                assert(out@.subrange(0, out@.len() - 1) =~= o_pre);
                assert(children_view(out@) == children_view(out@.subrange(0, out@.len() - 1)).push(
                    child_view(out@[out@.len() - 1]),
                ));
                assert(children_view(out@) == spec_filter_children(prefix1, context@));
            } else {
                assert(out@ =~= o_pre);
                assert(children_view(out@) == spec_filter_children(prefix1, context@));
            }
        }
        k += 1;
    }
    proof {
        assert(all.subrange(0, g.children@.len() as int) =~= all);
    }
    if out.len() == 0 {
        proof {
            assert(children_view(out@).len() == 0) by {
                lemma_children_view(out@);
            }
        }
        return None;
    }
    proof {
        lemma_children_view(out@);
        assert(children_view(out@).len() > 0);
    }
    let r = LayerGroup {
        id: g.id.clone(),
        children: out,
        access: match &g.access {
            Some(a) => Some(a.clone()),
            None => None,
        },
        use_count: g.use_count,
    };
    proof {
        assert(r@ == (GroupView { children: children_view(r.children@), ..g@ }));
    }
    Some(r)
}

impl Filter for LayerGroup {
    /// A group survives, with its surviving children, iff it passes its
    /// own access rule and at least one child survives.
    fn filter(self, context: &FilterContext) -> (r: Option<Self>)
        ensures
            match r {
                Some(g2) => spec_filter_group(self@, context@) == Some(g2@),
                None => spec_filter_group(self@, context@) is None,
            },
    {
        filter_group(&self, context)
    }
}

impl Filter for LayerGroupOrReference {
    /// A definition is filtered as a group; a bare reference passes
    /// through.
    fn filter(self, context: &FilterContext) -> (r: Option<Self>)
        ensures
            match r {
                Some(g2) => spec_filter_top_group(self@, context@) == Some(g2@),
                None => spec_filter_top_group(self@, context@) is None,
            },
    {
        match self {
            LayerGroupOrReference::Definition(d) => {
                match filter_group(&d, context) {
                    Some(g2) => Some(LayerGroupOrReference::Definition(g2)),
                    None => None,
                }
            },
            r @ LayerGroupOrReference::Reference(_) => Some(r),
        }
    }
}

/// Collects into `out` every layer id reachable from the group.
#[verifier::loop_isolation(false)]
fn collect_layer_ids(g: &LayerGroup, out: &mut Vec<String>)
    ensures
        forall|id: Seq<char>|
            #[trigger] seq_contains_str(strings_view(final(out)@), id) == (seq_contains_str(
                strings_view(old(out)@),
                id,
            ) || spec_group_layer_ids(g@).contains(id)),
    decreases g,
{
    let ghost all = children_view(g.children@);
    let mut k: usize = 0;
    proof {
        lemma_children_view(g.children@);
        assert(all.subrange(0, 0) =~= Seq::<ChildView>::empty());
    }
    while k < g.children.len()
        invariant
            0 <= k <= g.children@.len(),
            all == children_view(g.children@),
            all.len() == g.children@.len(),
            forall|i: int| 0 <= i < g.children@.len() ==> all[i] == child_view(g.children@[i]),
            forall|id: Seq<char>|
                #[trigger] seq_contains_str(strings_view(out@), id) == (seq_contains_str(
                    strings_view(old(out)@),
                    id,
                ) || spec_children_layer_ids(all.subrange(0, k as int)).contains(id)),
        decreases g.children@.len() - k,
    {
        let ghost o_pre = strings_view(out@);
        let ghost prefix1 = all.subrange(0, k as int + 1);
        proof {
            assert(prefix1.subrange(0, prefix1.len() - 1) =~= all.subrange(0, k as int));
            assert(prefix1[prefix1.len() - 1] == all[k as int]);
            assert(spec_children_layer_ids(prefix1) == spec_children_layer_ids(
                all.subrange(0, k as int),
            ).union(spec_child_layer_ids(all[k as int])));
        }
        match &g.children[k] {
            LayerGroupChild::Layer(id) => {
                out.push(id.clone());
                proof {
                    assert(strings_view(out@) =~= o_pre.push(id@));
                    assert(all[k as int] == ChildView::Layer(id@));
                    assert(spec_child_layer_ids(all[k as int]) == Set::<Seq<char>>::empty().insert(
                        id@,
                    ));
                    assert forall|s: Seq<char>|
                        #[trigger] seq_contains_str(strings_view(out@), s) == (seq_contains_str(
                            strings_view(old(out)@),
                            s,
                        ) || spec_children_layer_ids(prefix1).contains(s)) by {
                        if seq_contains_str(o_pre, s) {
                            let i = choose|i: int| 0 <= i < o_pre.len() && o_pre[i] == s;
                            assert(strings_view(out@)[i] == s);
                        }
                        if s == id@ {
                            assert(strings_view(out@)[strings_view(out@).len() - 1] == s);
                        }
                        if seq_contains_str(strings_view(out@), s) {
                            let i = choose|i: int|
                                0 <= i < strings_view(out@).len() && strings_view(out@)[i] == s;
                            if i < o_pre.len() {
                                assert(o_pre[i] == s);
                            }
                        }
                    }
                }
            },
            LayerGroupChild::Group(LayerGroupOrReference::Reference(_)) => {
                proof {
                    assert(spec_child_layer_ids(all[k as int]) =~= Set::<Seq<char>>::empty());
                    assert forall|s: Seq<char>|
                        #[trigger] seq_contains_str(strings_view(out@), s) == (seq_contains_str(
                            strings_view(old(out)@),
                            s,
                        ) || spec_children_layer_ids(prefix1).contains(s)) by {
                        assert(!spec_child_layer_ids(all[k as int]).contains(s));
                    }
                }
            },
            LayerGroupChild::Group(LayerGroupOrReference::Definition(sub)) => {
                collect_layer_ids(sub, out);
                proof {
                    assert(spec_child_layer_ids(all[k as int]) == spec_group_layer_ids(sub@));
                    assert forall|s: Seq<char>|
                        #[trigger] seq_contains_str(strings_view(out@), s) == (seq_contains_str(
                            strings_view(old(out)@),
                            s,
                        ) || spec_children_layer_ids(prefix1).contains(s)) by {
                        assert(seq_contains_str(strings_view(out@), s) == (seq_contains_str(
                            o_pre,
                            s,
                        ) || spec_group_layer_ids(sub@).contains(s)));
                    }
                }
            },
        }
        k += 1;
    }
    proof {
        assert(all.subrange(0, g.children@.len() as int) =~= all);
    }
}

impl Filter for LayerConfig {
    /// Projects the configuration down to what the caller may see. The
    /// result is always produced: a caller with insufficient access
    /// receives a smaller tree, never an error.
    #[verifier::loop_isolation(false)]
    fn filter(self, context: &FilterContext) -> (r: Option<Self>)
        ensures
            r matches Some(c) && spec_filter_config(self@, context@) == c@,
    {
        let LayerConfig { includes, layers, groups, voxel_mappings, tiff_displays } = self;
        proof {
            assert(self@.layers == seq_view(layers@));
            assert(self@.groups == gors_view(groups@));
        }
        let ghost lall = seq_view(layers@);

        // Keep the layers that pass their own access rule, accumulating
        // their ids as accessible.
        let mut ctx1 = context.clone();
        let mut vis: Vec<Layer> = Vec::new();
        let mut layers = layers;
        proof {
            assert(spec_visible_layers(Seq::<LayerView>::empty(), context@) =~= Seq::<
                LayerView,
            >::empty());
            assert(seq_view(vis@) =~= Seq::<LayerView>::empty());
        }
        while layers.len() > 0
            invariant
                exists|done: Seq<LayerView>|
                    {
                        &&& lall =~= done + seq_view(layers@)
                        &&& seq_view(vis@) == spec_visible_layers(done, context@)
                    },
                strings_view(ctx1.accessible_layer_ids@) == context@.accessible_layer_ids
                    + spec_layer_ids(seq_view(vis@)),
                ctx1@.groups == context@.groups,
                ctx1@.env == context@.env,
            decreases layers@.len(),
        {
            let ghost done_pre = choose|done: Seq<LayerView>|
                {
                    &&& lall =~= done + seq_view(layers@)
                    &&& seq_view(vis@) == spec_visible_layers(done, context@)
                };
            let ghost rest_pre = seq_view(layers@);
            let ghost v_pre = seq_view(vis@);
            let ghost a_pre = strings_view(ctx1.accessible_layer_ids@);
            let l = layers.remove(0);
            proof {
                assert(seq_view(layers@) =~= rest_pre.subrange(1, rest_pre.len() as int));
                assert(rest_pre[0] == l@);
            }
            let keep = allowed(&l.access, context);
            if keep {
                ctx1.accessible_layer_ids.push(l.id.clone());
                proof {
                    assert(strings_view(ctx1.accessible_layer_ids@) =~= a_pre.push(l@.id));
                }
                vis.push(l);
            }
            proof {
                let done1 = done_pre.push(l@);
                assert(done1.drop_last() =~= done_pre);
                assert(lall =~= done1 + seq_view(layers@));
                assert(seq_view(vis@) == spec_visible_layers(done1, context@)) by {
                    if keep {
                        assert(seq_view(vis@) =~= v_pre.push(l@));
                    }
                }
                assert(spec_layer_ids(seq_view(vis@)) =~= (if keep {
                    spec_layer_ids(v_pre).push(l@.id)
                } else {
                    spec_layer_ids(v_pre)
                }));
                assert(strings_view(ctx1.accessible_layer_ids@) =~= context@.accessible_layer_ids
                    + spec_layer_ids(seq_view(vis@)));
            }
        }
        proof {
            let done_fin = choose|done: Seq<LayerView>|
                {
                    &&& lall =~= done + seq_view(layers@)
                    &&& seq_view(vis@) == spec_visible_layers(done, context@)
                };
            assert(seq_view(layers@) =~= Seq::<LayerView>::empty());
            assert(done_fin =~= lall);
            assert(ctx1@ == (ContextView {
                accessible_layer_ids: context@.accessible_layer_ids + spec_layer_ids(
                    seq_view(vis@),
                ),
                ..context@
            }));
        }
        let ghost vis_v = seq_view(vis@);
        let ghost ctx1_v = ctx1@;

        // Filter the top-level groups with the accessible-layer set
        // complete.
        let ghost gall = gors_view(groups@);
        let mut out_groups: Vec<LayerGroupOrReference> = Vec::new();
        let mut k: usize = 0;
        proof {
            assert(gall.subrange(0, 0) =~= Seq::<GroupOrRefView>::empty());
            assert(gors_view(out_groups@) =~= Seq::<GroupOrRefView>::empty());
            assert(spec_filter_top_groups(gall.subrange(0, 0), ctx1_v) =~= Seq::<
                GroupOrRefView,
            >::empty());
        }
        while k < groups.len()
            invariant
                0 <= k <= groups@.len(),
                gors_view(out_groups@) == spec_filter_top_groups(
                    gall.subrange(0, k as int),
                    ctx1_v,
                ),
            decreases groups@.len() - k,
        {
            let ghost o_pre = out_groups@;
            let ghost s_pre = gors_view(out_groups@);
            proof {
                assert(gall[k as int] == groups@[k as int]@);
            }
            match &groups[k] {
                LayerGroupOrReference::Definition(d) => {
                    match filter_group(d, &ctx1) {
                        Some(g2) => {
                            out_groups.push(LayerGroupOrReference::Definition(g2));
                        },
                        None => {},
                    }
                },
                LayerGroupOrReference::Reference(name) => {
                    out_groups.push(LayerGroupOrReference::Reference(name.clone()));
                },
            }
            proof {
                let prefix1 = gall.subrange(0, k as int + 1);
                assert(prefix1.drop_last() =~= gall.subrange(0, k as int));
                assert(prefix1.last() == gall[k as int]);
                if out_groups@.len() > o_pre.len() {
                    assert(gors_view(out_groups@) =~= s_pre.push(
                        gor_view(out_groups@[out_groups@.len() - 1]),
                    ));
                } else {
                    assert(out_groups@ =~= o_pre);
                    assert(gors_view(out_groups@) =~= s_pre);
                }
            }
            k += 1;
        }
        proof {
            assert(gall.subrange(0, groups@.len() as int) =~= gall);
        }
        let ghost gs_v = gors_view(out_groups@);
        let ghost reach = spec_top_layer_ids(gs_v);

        // Recompute the layer ids reachable from the surviving groups and
        // drop every layer that no surviving group exposes.
        let mut reachable: Vec<String> = Vec::new();
        let mut k: usize = 0;
        proof {
            assert(strings_view(reachable@) =~= Seq::<Seq<char>>::empty());
            assert(spec_top_layer_ids(gs_v.subrange(0, 0)) =~= Set::<Seq<char>>::empty());
        }
        while k < out_groups.len()
            invariant
                0 <= k <= out_groups@.len(),
                gs_v == gors_view(out_groups@),
                gs_v.len() == out_groups@.len(),
                forall|i: int| 0 <= i < out_groups@.len() ==> gs_v[i] == gor_view(
                    out_groups@[i],
                ),
                forall|id: Seq<char>|
                    seq_contains_str(strings_view(reachable@), id) == spec_top_layer_ids(
                        gs_v.subrange(0, k as int),
                    ).contains(id),
            decreases out_groups@.len() - k,
        {
            let ghost r_pre = strings_view(reachable@);
            let ghost prefix1 = gs_v.subrange(0, k as int + 1);
            proof {
                assert(prefix1.drop_last() =~= gs_v.subrange(0, k as int));
                assert(prefix1.last() == gs_v[k as int]);
                assert(spec_top_layer_ids(prefix1) == spec_top_layer_ids(
                    gs_v.subrange(0, k as int),
                ).union(
                    match gs_v[k as int] {
                        GroupOrRefView::Definition(d) => spec_group_layer_ids(*d),
                        GroupOrRefView::Reference(_) => Set::empty(),
                    },
                ));
            }
            match &out_groups[k] {
                LayerGroupOrReference::Definition(d) => {
                    collect_layer_ids(d, &mut reachable);
                    proof {
                        assert(gs_v[k as int] == GroupOrRefView::Definition(
                            Box::new(group_view(*d)),
                        ));
                        assert forall|id: Seq<char>|
                            seq_contains_str(strings_view(reachable@), id) == spec_top_layer_ids(
                                prefix1,
                            ).contains(id) by {
                            assert(seq_contains_str(strings_view(reachable@), id) == (
                            seq_contains_str(r_pre, id) || spec_group_layer_ids(d@).contains(
                                id,
                            )));
                        }
                    }
                },
                LayerGroupOrReference::Reference(_) => {
                    proof {
                        assert forall|id: Seq<char>|
                            seq_contains_str(strings_view(reachable@), id) == spec_top_layer_ids(
                                prefix1,
                            ).contains(id) by {
                            assert(!Set::<Seq<char>>::empty().contains(id));
                        }
                    }
                },
            }
            k += 1;
        }
        proof {
            assert(gs_v.subrange(0, out_groups@.len() as int) =~= gs_v);
        }
        let mut final_layers: Vec<Layer> = Vec::new();
        let mut vis = vis;
        proof {
            assert(spec_reachable_layers(Seq::<LayerView>::empty(), reach) =~= Seq::<
                LayerView,
            >::empty());
            assert(seq_view(final_layers@) =~= Seq::<LayerView>::empty());
        }
        while vis.len() > 0
            invariant
                exists|done: Seq<LayerView>|
                    {
                        &&& vis_v =~= done + seq_view(vis@)
                        &&& seq_view(final_layers@) == spec_reachable_layers(done, reach)
                    },
                forall|id: Seq<char>|
                    seq_contains_str(strings_view(reachable@), id) == reach.contains(id),
            decreases vis@.len(),
        {
            let ghost done_pre = choose|done: Seq<LayerView>|
                {
                    &&& vis_v =~= done + seq_view(vis@)
                    &&& seq_view(final_layers@) == spec_reachable_layers(done, reach)
                };
            let ghost rest_pre = seq_view(vis@);
            let ghost f_pre = seq_view(final_layers@);
            let l = vis.remove(0);
            proof {
                assert(seq_view(vis@) =~= rest_pre.subrange(1, rest_pre.len() as int));
                assert(rest_pre[0] == l@);
            }
            let keep = contains_string(&reachable, &l.id);
            if keep {
                final_layers.push(l);
            }
            proof {
                let done1 = done_pre.push(l@);
                assert(done1.drop_last() =~= done_pre);
                assert(vis_v =~= done1 + seq_view(vis@));
                assert(seq_view(final_layers@) == spec_reachable_layers(done1, reach)) by {
                    if keep {
                        assert(seq_view(final_layers@) =~= f_pre.push(l@));
                    }
                }
            }
        }
        proof {
            let done_fin = choose|done: Seq<LayerView>|
                {
                    &&& vis_v =~= done + seq_view(vis@)
                    &&& seq_view(final_layers@) == spec_reachable_layers(done, reach)
                };
            assert(seq_view(vis@) =~= Seq::<LayerView>::empty());
            assert(done_fin =~= vis_v);
        }
        let c = LayerConfig {
            includes,
            layers: final_layers,
            groups: out_groups,
            voxel_mappings,
            tiff_displays,
        };
        proof {
            assert(c@ == spec_filter_config(self@, context@));
        }
        Some(c)
    }
}

} // verus!
