//! Layer groups: named, ordered containers of layer references and nested
//! groups, forming the navigable tree.

use vstd::prelude::*;
use crate::access::{AccessView, LayerAccess};
use crate::error::{ConfigError, ErrorView, ReferenceKind};
use crate::layer::{Layer, LayerView};
use crate::pool::{bump, spec_bump, spec_first_key, lemma_first_key};
use crate::seq_contains_str;
use crate::seq_view;

verus! {

/// A named, ordered container of layers and nested groups.
#[derive(Debug)]
pub struct LayerGroup {
    /// A unique identifier for the group, also used as part of the
    /// translation key for the group's display name.
    pub id: String,
    /// The group's children, in document order.
    pub children: Vec<LayerGroupChild>,
    /// Who may see the group; absent means public.
    pub access: Option<LayerAccess>,
    /// How many times this group has been referenced by name.
    pub use_count: u32,
}

/// One child of a group: a layer id, or a nested group.
#[derive(Debug)]
pub enum LayerGroupChild {
    /// The id of a layer of the configuration.
    Layer(String),
    /// A nested group, written in place or referenced by name.
    Group(LayerGroupOrReference),
}

/// A group written in place, or a by-name reference to a group contributed
/// by an included document. After resolution only definitions remain.
#[derive(Debug)]
pub enum LayerGroupOrReference {
    Definition(LayerGroup),
    Reference(String),
}

/// The mathematical value of a [`LayerGroup`].
#[verifier::ext_equal]
pub ghost struct GroupView {
    pub id: Seq<char>,
    pub children: Seq<ChildView>,
    pub access: Option<AccessView>,
    pub use_count: u32,
}

/// The mathematical value of a [`LayerGroupChild`].
#[verifier::ext_equal]
pub ghost enum ChildView {
    Layer(Seq<char>),
    Group(GroupOrRefView),
}

/// The mathematical value of a [`LayerGroupOrReference`].
#[verifier::ext_equal]
pub ghost enum GroupOrRefView {
    Definition(Box<GroupView>),
    Reference(Seq<char>),
}

impl GroupView {
    /// The same group with its use count one higher.
    pub open spec fn bumped(self) -> Self {
        GroupView { use_count: spec_bump(self.use_count), ..self }
    }
}

/// The mathematical value of a [`LayerGroup`].
pub open spec fn group_view(g: LayerGroup) -> GroupView
    decreases g,
{
    GroupView {
        id: g.id@,
        children: children_view(g.children@),
        access: match g.access {
            Some(a) => Some(a@),
            None => None,
        },
        use_count: g.use_count,
    }
}

/// The mathematical values of a sequence of group children.
pub open spec fn children_view(s: Seq<LayerGroupChild>) -> Seq<ChildView>
    decreases s,
{
    if s.len() == 0 {
        Seq::empty()
    } else {
        children_view(s.subrange(0, s.len() - 1)).push(child_view(s[s.len() - 1]))
    }
}

/// The mathematical value of a [`LayerGroupChild`].
pub open spec fn child_view(c: LayerGroupChild) -> ChildView
    decreases c,
{
    match c {
        LayerGroupChild::Layer(id) => ChildView::Layer(id@),
        LayerGroupChild::Group(g) => ChildView::Group(gor_view(g)),
    }
}

/// The mathematical value of a [`LayerGroupOrReference`].
pub open spec fn gor_view(g: LayerGroupOrReference) -> GroupOrRefView
    decreases g,
{
    match g {
        LayerGroupOrReference::Definition(d) => GroupOrRefView::Definition(Box::new(group_view(d))),
        LayerGroupOrReference::Reference(name) => GroupOrRefView::Reference(name@),
    }
}

impl View for LayerGroup {
    type V = GroupView;

    open spec fn view(&self) -> GroupView {
        group_view(*self)
    }
}

impl View for LayerGroupChild {
    type V = ChildView;

    open spec fn view(&self) -> ChildView {
        child_view(*self)
    }
}

impl View for LayerGroupOrReference {
    type V = GroupOrRefView;

    open spec fn view(&self) -> GroupOrRefView {
        gor_view(*self)
    }
}

/// The views of a children sequence are its elements' views, in order.
pub proof fn lemma_children_view(s: Seq<LayerGroupChild>)
    ensures
        children_view(s).len() == s.len(),
        forall|i: int| 0 <= i < s.len() ==> children_view(s)[i] == child_view(s[i]),
    decreases s,
{
    if s.len() > 0 {
        lemma_children_view(s.subrange(0, s.len() - 1));
    }
}

impl Clone for LayerGroup {
    fn clone(&self) -> (r: Self)
        ensures
            r@ == self@,
        decreases self,
    {
        let mut children: Vec<LayerGroupChild> = Vec::new();
        let mut k: usize = 0;
        proof {
            lemma_children_view(self.children@);
        }
        while k < self.children.len()
            invariant
                0 <= k <= self.children@.len(),
                children@.len() == k,
                forall|i: int| 0 <= i < self.children@.len() ==> children_view(self.children@)[i]
                    == child_view(self.children@[i]),
                forall|i: int| 0 <= i < k ==> child_view(children@[i]) == child_view(
                    self.children@[i],
                ),
            decreases self.children@.len() - k,
        {
            let c = match &self.children[k] {
                LayerGroupChild::Layer(id) => LayerGroupChild::Layer(id.clone()),
                LayerGroupChild::Group(LayerGroupOrReference::Reference(name)) => {
                    LayerGroupChild::Group(LayerGroupOrReference::Reference(name.clone()))
                },
                LayerGroupChild::Group(LayerGroupOrReference::Definition(sub)) => {
                    LayerGroupChild::Group(LayerGroupOrReference::Definition(sub.clone()))
                },
            };
            children.push(c);
            k += 1;
        }
        let r = LayerGroup {
            id: self.id.clone(),
            children,
            access: match &self.access {
                Some(a) => Some(a.clone()),
                None => None,
            },
            use_count: self.use_count,
        };
        proof {
            lemma_children_view(r.children@);
            assert(children_view(r.children@) =~= children_view(self.children@));
        }
        r
    }
}

/// The ids of a sequence of layers.
pub open spec fn spec_layer_ids(ls: Seq<LayerView>) -> Seq<Seq<char>> {
    Seq::new(ls.len(), |i: int| ls[i].id)
}

/// The ids of a sequence of groups.
pub open spec fn spec_group_ids(gs: Seq<GroupView>) -> Seq<Seq<char>> {
    Seq::new(gs.len(), |i: int| gs[i].id)
}

/// Finds the first layer with the given id.
pub fn find_layer(layers: &Vec<Layer>, id: &String) -> (r: Option<usize>)
    ensures
        match r {
            Some(j) => seq_contains_str(spec_layer_ids(seq_view(layers@)), id@) && j
                == spec_first_key(spec_layer_ids(seq_view(layers@)), id@) && 0 <= j
                < layers@.len() && layers@[j as int].id@ == id@,
            None => !seq_contains_str(spec_layer_ids(seq_view(layers@)), id@),
        },
{
    let ghost keys = spec_layer_ids(seq_view(layers@));
    let mut k: usize = 0;
    while k < layers.len()
        invariant
            0 <= k <= layers@.len(),
            keys == spec_layer_ids(seq_view(layers@)),
            forall|i: int| 0 <= i < k ==> keys[i] != id@,
        decreases layers@.len() - k,
    {
        proof {
            assert(keys[k as int] == layers@[k as int].id@);
        }
        if layers[k].id.eq(id) {
            proof {
                lemma_first_key(keys, id@, k as int);
            }
            return Some(k);
        }
        k += 1;
    }
    None
}

/// Finds the first group with the given id.
pub fn find_group(groups: &Vec<LayerGroup>, id: &String) -> (r: Option<usize>)
    ensures
        match r {
            Some(j) => seq_contains_str(spec_group_ids(seq_view(groups@)), id@) && j
                == spec_first_key(spec_group_ids(seq_view(groups@)), id@) && 0 <= j
                < groups@.len() && groups@[j as int].id@ == id@,
            None => !seq_contains_str(spec_group_ids(seq_view(groups@)), id@),
        },
{
    let ghost keys = spec_group_ids(seq_view(groups@));
    let mut k: usize = 0;
    while k < groups.len()
        invariant
            0 <= k <= groups@.len(),
            keys == spec_group_ids(seq_view(groups@)),
            forall|i: int| 0 <= i < k ==> keys[i] != id@,
        decreases groups@.len() - k,
    {
        proof {
            assert(keys[k as int] == groups@[k as int].id@);
        }
        if groups[k].id.eq(id) {
            proof {
                lemma_first_key(keys, id@, k as int);
            }
            return Some(k);
        }
        k += 1;
    }
    None
}

/// The shapes a decoded tree-child node can take.
#[derive(Clone, Copy, Debug, PartialEq, Eq, Structural)]
pub enum GroupChildShape {
    /// A single-key object holding a path: a link to a group by name.
    Link,
    /// An object carrying children: a nested group definition.
    Group,
    /// Anything else: a layer.
    Layer,
}

/// The shape of a decoded tree-child node, decided by precedence: a
/// single-key object with a path-like key is a link; otherwise an object
/// with a children-like key is a group; everything else is a layer.
pub open spec fn spec_classify_group_child(
    key_count: int,
    has_path: bool,
    has_children: bool,
) -> GroupChildShape {
    if key_count == 1 && has_path {
        GroupChildShape::Link
    } else if has_children {
        GroupChildShape::Group
    } else {
        GroupChildShape::Layer
    }
}

/// Decides the shape of a decoded tree-child node from the number of keys
/// of the object and whether it carries a path or children key.
pub fn classify_group_child(key_count: usize, has_path: bool, has_children: bool) -> (r:
    GroupChildShape)
    ensures
        r == spec_classify_group_child(key_count as int, has_path, has_children),
{
    if key_count == 1 && has_path {
        GroupChildShape::Link
    } else if has_children {
        GroupChildShape::Group
    } else {
        GroupChildShape::Layer
    }
}

/// Resolves one child against the known tables: a layer id must name a
/// known layer, whose use count is incremented; a by-name group reference
/// is replaced by the known group of that name, whose use count is
/// incremented first; an in-place group is resolved recursively.
pub open spec fn spec_resolve_child(
    c: ChildView,
    layers: Seq<LayerView>,
    groups: Seq<GroupView>,
) -> Result<(ChildView, Seq<LayerView>, Seq<GroupView>), ErrorView>
    decreases c,
{
    match c {
        ChildView::Layer(id) => {
            if seq_contains_str(spec_layer_ids(layers), id) {
                let j = spec_first_key(spec_layer_ids(layers), id);
                Ok((c, layers.update(j, layers[j].bumped()), groups))
            } else {
                Err(
                    ErrorView::UnknownReference {
                        kind: ReferenceKind::Layer,
                        name: id,
                        document: Seq::empty(),
                    },
                )
            }
        },
        ChildView::Group(GroupOrRefView::Reference(name)) => {
            if seq_contains_str(spec_group_ids(groups), name) {
                let j = spec_first_key(spec_group_ids(groups), name);
                let g = groups[j].bumped();
                Ok(
                    (
                        ChildView::Group(GroupOrRefView::Definition(Box::new(g))),
                        layers,
                        groups.update(j, g),
                    ),
                )
            } else {
                Err(
                    ErrorView::UnknownReference {
                        kind: ReferenceKind::Group,
                        name,
                        document: Seq::empty(),
                    },
                )
            }
        },
        ChildView::Group(GroupOrRefView::Definition(sub)) => {
            match spec_resolve_group(*sub, layers, groups) {
                Ok((s2, l2, g2)) => Ok(
                    (ChildView::Group(GroupOrRefView::Definition(Box::new(s2))), l2, g2),
                ),
                Err(e) => Err(e),
            }
        },
    }
}

/// Resolves a sequence of children in order, threading the known tables
/// through.
pub open spec fn spec_resolve_children(
    cs: Seq<ChildView>,
    layers: Seq<LayerView>,
    groups: Seq<GroupView>,
) -> Result<(Seq<ChildView>, Seq<LayerView>, Seq<GroupView>), ErrorView>
    decreases cs,
{
    if cs.len() == 0 {
        Ok((Seq::empty(), layers, groups))
    } else {
        match spec_resolve_children(cs.subrange(0, cs.len() - 1), layers, groups) {
            Ok((s, l, g)) => match spec_resolve_child(cs[cs.len() - 1], l, g) {
                Ok((c, l2, g2)) => Ok((s.push(c), l2, g2)),
                Err(e) => Err(e),
            },
            Err(e) => Err(e),
        }
    }
}

/// Resolves a group: every child is checked and bound against the known
/// tables.
pub open spec fn spec_resolve_group(
    g: GroupView,
    layers: Seq<LayerView>,
    groups: Seq<GroupView>,
) -> Result<(GroupView, Seq<LayerView>, Seq<GroupView>), ErrorView>
    decreases g,
{
    match spec_resolve_children(g.children, layers, groups) {
        Ok((cs, l2, g2)) => Ok((GroupView { children: cs, ..g }, l2, g2)),
        Err(e) => Err(e),
    }
}

/// Once one child fails to resolve, the whole sequence fails with that
/// first error.
pub proof fn lemma_resolve_children_err(
    cs: Seq<ChildView>,
    layers: Seq<LayerView>,
    groups: Seq<GroupView>,
    k: int,
    e: ErrorView,
)
    requires
        0 <= k < cs.len(),
        spec_resolve_children(cs.subrange(0, k), layers, groups) matches Ok(sp)
            && spec_resolve_child(cs[k], sp.1, sp.2) == Err::<
            (ChildView, Seq<LayerView>, Seq<GroupView>),
            ErrorView,
        >(e),
    ensures
        spec_resolve_children(cs, layers, groups) == Err::<
            (Seq<ChildView>, Seq<LayerView>, Seq<GroupView>),
            ErrorView,
        >(e),
    decreases cs.len(),
{
    let prefix = cs.subrange(0, k);
    if k == cs.len() - 1 {
        assert(cs.subrange(0, cs.len() - 1) =~= prefix);
    } else {
        let c1 = cs.subrange(0, cs.len() - 1);
        assert(c1.subrange(0, k) =~= prefix);
        assert(c1[k] == cs[k]);
        lemma_resolve_children_err(c1, layers, groups, k, e);
    }
}

impl LayerGroup {
    /// Resolves the group against the known tables: every layer-id child
    /// must name a known layer (bumping that layer's use count), every
    /// by-name group child is replaced by the known group of that name
    /// (bumping that group's use count), and every in-place group child is
    /// resolved recursively.
    pub fn resolve(
        &self,
        known_layers: &mut Vec<Layer>,
        known_groups: &mut Vec<LayerGroup>,
    ) -> (r: Result<LayerGroup, ConfigError>)
        ensures
            match r {
                Ok(g) => spec_resolve_group(
                    self@,
                    seq_view(old(known_layers)@),
                    seq_view(old(known_groups)@),
                ) == Ok::<_, ErrorView>(
                    (g@, seq_view(final(known_layers)@), seq_view(final(known_groups)@)),
                ),
                Err(e) => spec_resolve_group(
                    self@,
                    seq_view(old(known_layers)@),
                    seq_view(old(known_groups)@),
                ) == Err::<(GroupView, Seq<LayerView>, Seq<GroupView>), _>(e@),
            },
        decreases self,
    {
        let ghost all = children_view(self.children@);
        let ghost l0 = seq_view(known_layers@);
        let ghost g0 = seq_view(known_groups@);
        let mut out: Vec<LayerGroupChild> = Vec::new();
        let mut k: usize = 0;
        proof {
            lemma_children_view(self.children@);
            assert(all.subrange(0, 0) =~= Seq::<ChildView>::empty());
            assert(children_view(out@) =~= Seq::<ChildView>::empty());
        }
        while k < self.children.len()
            invariant
                0 <= k <= self.children@.len(),
                all == children_view(self.children@),
                all.len() == self.children@.len(),
                forall|i: int| 0 <= i < self.children@.len() ==> all[i] == child_view(
                    self.children@[i],
                ),
                l0 == seq_view(old(known_layers)@),
                g0 == seq_view(old(known_groups)@),
                spec_resolve_children(all.subrange(0, k as int), l0, g0) == Ok::<_, ErrorView>(
                    (children_view(out@), seq_view(known_layers@), seq_view(known_groups@)),
                ),
            decreases self.children@.len() - k,
        {
            let ghost o_pre = out@;
            let ghost s_pre = children_view(out@);
            let ghost l_pre = seq_view(known_layers@);
            let ghost g_pre = seq_view(known_groups@);
            let ghost prefix = all.subrange(0, k as int);
            match &self.children[k] {
                LayerGroupChild::Layer(id) => {
                    match find_layer(known_layers, id) {
                        Some(j) => {
                            let ghost jj = j as int;
                            let elem = &mut known_layers[j];
                            let c0 = elem.use_count;
                            elem.use_count = bump(c0);
                            proof {
                                assert(seq_view(known_layers@) =~= l_pre.update(
                                    jj,
                                    l_pre[jj].bumped(),
                                ));
                            }
                            out.push(LayerGroupChild::Layer(id.clone()));
                        },
                        None => {
                            let e = ConfigError::UnknownReference {
                                kind: ReferenceKind::Layer,
                                name: id.clone(),
                                document: String::new(),
                            };
                            proof {
                                lemma_resolve_children_err(all, l0, g0, k as int, e@);
                            }
                            return Err(e);
                        },
                    }
                },
                LayerGroupChild::Group(LayerGroupOrReference::Reference(name)) => {
                    match find_group(known_groups, name) {
                        Some(j) => {
                            let ghost jj = j as int;
                            let elem = &mut known_groups[j];
                            let c0 = elem.use_count;
                            elem.use_count = bump(c0);
                            proof {
                                assert(seq_view(known_groups@) =~= g_pre.update(
                                    jj,
                                    g_pre[jj].bumped(),
                                ));
                            }
                            let g = known_groups[j].clone();
                            proof {
                                assert(g@ == g_pre[jj].bumped());
                            }
                            out.push(
                                LayerGroupChild::Group(LayerGroupOrReference::Definition(g)),
                            );
                        },
                        None => {
                            let e = ConfigError::UnknownReference {
                                kind: ReferenceKind::Group,
                                name: name.clone(),
                                document: String::new(),
                            };
                            proof {
                                lemma_resolve_children_err(all, l0, g0, k as int, e@);
                            }
                            return Err(e);
                        },
                    }
                },
                LayerGroupChild::Group(LayerGroupOrReference::Definition(sub)) => {
                    match sub.resolve(known_layers, known_groups) {
                        Ok(s2) => {
                            out.push(
                                LayerGroupChild::Group(LayerGroupOrReference::Definition(s2)),
                            );
                        },
                        Err(e) => {
                            proof {
                                lemma_resolve_children_err(all, l0, g0, k as int, e@);
                            }
                            return Err(e);
                        },
                    }
                },
            }
            proof {
                assert(out@.subrange(0, out@.len() - 1) =~= o_pre);
                assert(children_view(out@) == children_view(out@.subrange(0, out@.len() - 1)).push(
                    child_view(out@[out@.len() - 1]),
                ));
                let prefix1 = all.subrange(0, k as int + 1);
                assert(prefix1.subrange(0, prefix1.len() - 1) =~= prefix);
                assert(prefix1[prefix1.len() - 1] == all[k as int]);
                assert(spec_resolve_children(prefix1, l0, g0) == Ok::<_, ErrorView>(
                    (children_view(out@), seq_view(known_layers@), seq_view(known_groups@)),
                ));
            }
            k += 1;
        }
        proof {
            assert(all.subrange(0, self.children@.len() as int) =~= all);
        }
        let r = LayerGroup {
            id: self.id.clone(),
            children: out,
            access: match &self.access {
                Some(a) => Some(a.clone()),
                None => None,
            },
            use_count: self.use_count,
        };
        proof {
            assert(r@ == (GroupView { children: children_view(r.children@), ..self@ }));
        }
        Ok(r)
    }
}

/// Resolution rewrites the known layers only by incrementing use counts:
/// the ids, in order, stay exactly the same. The same holds for the known
/// groups and for the layer ids reachable from each known group's tree.
pub proof fn lemma_resolve_child_preserves_ids(
    c: ChildView,
    layers: Seq<LayerView>,
    groups: Seq<GroupView>,
)
    requires
        spec_resolve_child(c, layers, groups) is Ok,
    ensures
        spec_layer_ids(spec_resolve_child(c, layers, groups)->Ok_0.1) =~= spec_layer_ids(
            layers,
        ),
        spec_group_ids(spec_resolve_child(c, layers, groups)->Ok_0.2) =~= spec_group_ids(
            groups,
        ),
        forall|j: int|
            0 <= j < groups.len() ==> #[trigger] spec_resolve_child(
                c,
                layers,
                groups,
            )->Ok_0.2[j].children == groups[j].children,
    decreases c,
{
    match c {
        ChildView::Layer(id) => {
            if seq_contains_str(spec_layer_ids(layers), id) {
                crate::pool::lemma_first_key_found(spec_layer_ids(layers), id);
                let j = spec_first_key(spec_layer_ids(layers), id);
                assert(spec_layer_ids(layers.update(j, layers[j].bumped())) =~= spec_layer_ids(
                    layers,
                ));
            }
        },
        ChildView::Group(GroupOrRefView::Reference(name)) => {
            if seq_contains_str(spec_group_ids(groups), name) {
                crate::pool::lemma_first_key_found(spec_group_ids(groups), name);
                let j = spec_first_key(spec_group_ids(groups), name);
                assert(spec_group_ids(groups.update(j, groups[j].bumped())) =~= spec_group_ids(
                    groups,
                ));
            }
        },
        ChildView::Group(GroupOrRefView::Definition(sub)) => {
            lemma_resolve_group_preserves_ids(*sub, layers, groups);
        },
    }
}

/// As [`lemma_resolve_child_preserves_ids`], for a sequence of children.
pub proof fn lemma_resolve_children_preserves_ids(
    cs: Seq<ChildView>,
    layers: Seq<LayerView>,
    groups: Seq<GroupView>,
)
    requires
        spec_resolve_children(cs, layers, groups) is Ok,
    ensures
        spec_layer_ids(spec_resolve_children(cs, layers, groups)->Ok_0.1) =~= spec_layer_ids(
            layers,
        ),
        spec_group_ids(spec_resolve_children(cs, layers, groups)->Ok_0.2) =~= spec_group_ids(
            groups,
        ),
        forall|j: int|
            0 <= j < groups.len() ==> #[trigger] spec_resolve_children(
                cs,
                layers,
                groups,
            )->Ok_0.2[j].children == groups[j].children,
    decreases cs,
{
    if cs.len() == 0 {
    } else {
        let prefix = cs.subrange(0, cs.len() - 1);
        lemma_resolve_children_preserves_ids(prefix, layers, groups);
        let (_, l1, g1) = spec_resolve_children(prefix, layers, groups)->Ok_0;
        lemma_resolve_child_preserves_ids(cs[cs.len() - 1], l1, g1);
    }
}

/// As [`lemma_resolve_child_preserves_ids`], for a whole group.
pub proof fn lemma_resolve_group_preserves_ids(
    g: GroupView,
    layers: Seq<LayerView>,
    groups: Seq<GroupView>,
)
    requires
        spec_resolve_group(g, layers, groups) is Ok,
    ensures
        spec_layer_ids(spec_resolve_group(g, layers, groups)->Ok_0.1) =~= spec_layer_ids(
            layers,
        ),
        spec_group_ids(spec_resolve_group(g, layers, groups)->Ok_0.2) =~= spec_group_ids(
            groups,
        ),
        forall|j: int|
            0 <= j < groups.len() ==> #[trigger] spec_resolve_group(
                g,
                layers,
                groups,
            )->Ok_0.2[j].children == groups[j].children,
    decreases g,
{
    lemma_resolve_children_preserves_ids(g.children, layers, groups);
}

} // verus!
