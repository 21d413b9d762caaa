//! The tree flattener: converts the host-supplied nested node tree plus an
//! externally computed absolute-layout map into the flat, indexed container
//! array.
//!
//! Indices are assigned by a deterministic depth-first traversal with
//! children in source order. A node absent from the layout map is silently
//! skipped together with its entire subtree.

use vstd::prelude::*;
use vstd::pervasive::VecAdditionalExecFns;
use crate::container::Container;
use crate::container::ContainerView;

verus! {

/// One node of the host-supplied nested tree.
pub struct Node {
    pub id: String,
    pub style_id: String,
    pub display: bool,
    pub overflow: bool,
    pub passive: bool,
    pub aspect_ratio: bool,
    pub text: String,
    pub font: String,
    pub img: String,
    pub data: String,
    /// opaque handle to the host-resolved visual attributes, carried through
    pub payload: u64,
    pub scroll_value: i64,
    pub children: Vec<Node>,
}

/// The absolute rectangle the external layout engine resolved for one id.
pub struct LayoutRect {
    pub id: String,
    pub x: i64,
    pub y: i64,
    pub width: i64,
    pub height: i64,
}

/// Mathematical model of a [`LayoutRect`]'s geometry.
pub ghost struct RectView {
    pub x: int,
    pub y: int,
    pub width: int,
    pub height: int,
}

pub open spec fn rect_view(r: LayoutRect) -> RectView {
    RectView {
        x: r.x as int,
        y: r.y as int,
        width: r.width as int,
        height: r.height as int,
    }
}

/// The geometry of the first entry whose id matches, if any.
pub open spec fn layout_lookup(entries: Seq<LayoutRect>, id: Seq<char>) -> Option<RectView>
    decreases entries.len(),
{
    if entries.len() == 0 {
        None
    } else if entries[0].id@ == id {
        Some(rect_view(entries[0]))
    } else {
        layout_lookup(entries.drop_first(), id)
    }
}

/// The externally computed layout map from node id to absolute rectangle.
pub struct LayoutMap {
    pub entries: Vec<LayoutRect>,
}

impl LayoutMap {
    pub fn new() -> (r: LayoutMap)
        ensures
            r.entries@.len() == 0,
    {
        LayoutMap { entries: Vec::new() }
    }

    /// The geometry recorded for this id, as (x, y, width, height);
    /// `None` when the id has no layout entry.
    pub fn lookup(&self, id: &String) -> (r: Option<(i64, i64, i64, i64)>)
        ensures
            match r {
                Some(t) => layout_lookup(self.entries@, id@) == Some(
                    RectView { x: t.0 as int, y: t.1 as int, width: t.2 as int, height: t.3 as int },
                ),
                None => layout_lookup(self.entries@, id@) is None,
            },
    {
        let ghost all = self.entries@;
        proof {
            assert(all.skip(0) =~= all);
        }
        let mut i: usize = 0;
        while i < self.entries.len()
            invariant
                i <= all.len(),
                all == self.entries@,
                layout_lookup(all, id@) == layout_lookup(all.skip(i as int), id@),
            decreases all.len() - i,
        {
            proof {
                assert(all.skip(i as int)[0] == all[i as int]);
            }
            let e = &self.entries[i];
            if e.id == *id {
                return Some((e.x, e.y, e.width, e.height));
            }
            proof {
                assert(all.skip(i as int).drop_first() =~= all.skip(i as int + 1));
            }
            i += 1;
        }
        proof {
            assert(all.skip(all.len() as int).len() == 0);
        }
        None
    }

    /// Whether this id has a layout entry.
    pub fn contains(&self, id: &String) -> (r: bool)
        ensures
            r == (layout_lookup(self.entries@, id@) is Some),
    {
        self.lookup(id).is_some()
    }
}

/// A node is emitted by the flattener exactly when its id has a layout entry.
pub open spec fn node_emitted(n: Node, lay: Seq<LayoutRect>) -> bool {
    layout_lookup(lay, n.id@) is Some
}

/// How many containers flattening this node's subtree emits.
pub open spec fn flat_count(n: Node, lay: Seq<LayoutRect>) -> nat
    decreases n,
{
    if node_emitted(n, lay) {
        1 + flat_count_seq(n.children@, lay)
    } else {
        0
    }
}

/// How many containers flattening this forest emits.
pub open spec fn flat_count_seq(cs: Seq<Node>, lay: Seq<LayoutRect>) -> nat
    decreases cs,
{
    if cs.len() == 0 {
        0
    } else {
        flat_count_seq(cs.drop_last(), lay) + flat_count(cs.last(), lay)
    }
}

/// The registry indices the emitted members of this forest receive when the
/// first of them would land at `base`: one entry per emitted root, in order.
pub open spec fn child_index_seq(cs: Seq<Node>, lay: Seq<LayoutRect>, base: int) -> Seq<int>
    decreases cs,
{
    if cs.len() == 0 {
        Seq::empty()
    } else {
        child_index_seq(cs.drop_last(), lay, base) + if node_emitted(cs.last(), lay) {
            seq![base + flat_count_seq(cs.drop_last(), lay)]
        } else {
            Seq::<int>::empty()
        }
    }
}

/// The container record emitted for a node that sits at registry index
/// `base` with the given resolved geometry and parent index.
pub open spec fn emitted_view(
    n: Node,
    r: RectView,
    parent: int,
    base: int,
    lay: Seq<LayoutRect>,
) -> ContainerView {
    ContainerView {
        id: n.id@,
        style_id: n.style_id@,
        x: r.x,
        y: r.y,
        width: r.width,
        height: r.height,
        parent: parent,
        children: child_index_seq(n.children@, lay, base + 1),
        passive: n.passive,
        display: n.display,
        overflow: n.overflow,
        text: n.text@,
        font: n.font@,
        img: n.img@,
        aspect_ratio: n.aspect_ratio,
        data: n.data@,
        payload: n.payload,
        scroll_value: n.scroll_value as int,
        hovered: false,
        prev_hovered: false,
        clicked: false,
        prev_clicked: false,
        toggled: false,
        prev_toggled: false,
        toggle_value: false,
    }
}

/// The flattening of one subtree: the records it contributes to the
/// registry, the first of them landing at index `base` with the given
/// parent index. Empty when the node has no layout entry.
pub open spec fn flat_views(n: Node, lay: Seq<LayoutRect>, parent: int, base: int) -> Seq<
    ContainerView,
>
    decreases n,
{
    match layout_lookup(lay, n.id@) {
        None => Seq::empty(),
        Some(r) => seq![emitted_view(n, r, parent, base, lay)] + flat_views_seq(
            n.children@,
            lay,
            base,
            base + 1,
        ),
    }
}

/// The flattening of a forest of sibling subtrees, all sharing one parent
/// index, the first record landing at index `base`.
pub open spec fn flat_views_seq(cs: Seq<Node>, lay: Seq<LayoutRect>, parent: int, base: int) -> Seq<
    ContainerView,
>
    decreases cs,
{
    if cs.len() == 0 {
        Seq::empty()
    } else {
        flat_views_seq(cs.drop_last(), lay, parent, base) + flat_views(
            cs.last(),
            lay,
            parent,
            base + flat_count_seq(cs.drop_last(), lay),
        )
    }
}

/// The full flattening of the tree: what the registry holds after a rebuild.
/// A deterministic function of the input tree and layout map alone.
pub open spec fn flatten_spec(root: Node, lay: Seq<LayoutRect>) -> Seq<ContainerView> {
    flat_views(root, lay, -1, 0)
}

/// The view of every container in a list, in order.
pub open spec fn views(s: Seq<Container>) -> Seq<ContainerView> {
    s.map_values(|c: Container| c@)
}

proof fn lemma_count_take_succ(cs: Seq<Node>, lay: Seq<LayoutRect>, j: int)
    requires
        0 <= j < cs.len(),
    ensures
        flat_count_seq(cs.take(j + 1), lay) == flat_count_seq(cs.take(j), lay) + flat_count(
            cs[j],
            lay,
        ),
{
    assert(cs.take(j + 1).drop_last() =~= cs.take(j));
    assert(cs.take(j + 1).last() == cs[j]);
}

proof fn lemma_views_take_succ(cs: Seq<Node>, lay: Seq<LayoutRect>, parent: int, base: int, j: int)
    requires
        0 <= j < cs.len(),
    ensures
        flat_views_seq(cs.take(j + 1), lay, parent, base) == flat_views_seq(
            cs.take(j),
            lay,
            parent,
            base,
        ) + flat_views(cs[j], lay, parent, base + flat_count_seq(cs.take(j), lay)),
{
    assert(cs.take(j + 1).drop_last() =~= cs.take(j));
    assert(cs.take(j + 1).last() == cs[j]);
}

proof fn lemma_child_index_take_succ(
    cs: Seq<Node>,
    lay: Seq<LayoutRect>,
    base: int,
    j: int,
)
    requires
        0 <= j < cs.len(),
    ensures
        child_index_seq(cs.take(j + 1), lay, base) == child_index_seq(cs.take(j), lay, base) + (
        if node_emitted(cs[j], lay) {
            seq![base + flat_count_seq(cs.take(j), lay)]
        } else {
            Seq::<int>::empty()
        }),
{
    assert(cs.take(j + 1).drop_last() =~= cs.take(j));
    assert(cs.take(j + 1).last() == cs[j]);
}

proof fn lemma_count_prefix(cs: Seq<Node>, lay: Seq<LayoutRect>, j: int)
    requires
        0 <= j < cs.len(),
    ensures
        flat_count_seq(cs.take(j), lay) + flat_count(cs[j], lay) <= flat_count_seq(cs, lay),
    decreases cs.len(),
{
    if j == cs.len() - 1 {
        assert(cs.take(j) =~= cs.drop_last());
        assert(cs.last() == cs[j]);
    } else {
        lemma_count_prefix(cs.drop_last(), lay, j);
        assert(cs.drop_last().take(j) =~= cs.take(j));
        assert(cs.drop_last()[j] == cs[j]);
    }
}

/// Structural well-formedness of the records a single subtree contributes,
/// relative to the index `base` its first record receives: the subtree root
/// links to the surrounding `parent`, every other record's parent lies
/// inside the segment and before the record itself, and every child link
/// points forward, inside the segment, at a record whose parent is the
/// referencing index.
pub open spec fn tree_wf(s: Seq<ContainerView>, parent: int, base: int) -> bool {
    forall|i: int|
        0 <= i < s.len() ==> {
            let c = #[trigger] s[i];
            &&& if i == 0 {
                c.parent == parent
            } else {
                base <= c.parent < base + i
            }
            &&& forall|j: int|
                0 <= j < c.children.len() ==> {
                    &&& base + i < #[trigger] c.children[j] < base + s.len()
                    &&& s[c.children[j] - base].parent == base + i
                }
        }
}

/// The same, for a forest of sibling subtrees: the root of each subtree
/// links to the shared `parent`.
pub open spec fn forest_wf(s: Seq<ContainerView>, parent: int, base: int) -> bool {
    forall|i: int|
        0 <= i < s.len() ==> {
            let c = #[trigger] s[i];
            &&& (c.parent == parent || base <= c.parent < base + i)
            &&& forall|j: int|
                0 <= j < c.children.len() ==> {
                    &&& base + i < #[trigger] c.children[j] < base + s.len()
                    &&& s[c.children[j] - base].parent == base + i
                }
        }
}

proof fn lemma_flat_wf(n: Node, lay: Seq<LayoutRect>, parent: int, base: int)
    ensures
        flat_views(n, lay, parent, base).len() == flat_count(n, lay),
        tree_wf(flat_views(n, lay, parent, base), parent, base),
    decreases n,
{
    if node_emitted(n, lay) {
        let r = layout_lookup(lay, n.id@)->Some_0;
        let head = emitted_view(n, r, parent, base, lay);
        let rest = flat_views_seq(n.children@, lay, base, base + 1);
        let s = flat_views(n, lay, parent, base);
        lemma_flat_wf_seq(n.children@, lay, base, base + 1);
        assert(s == seq![head] + rest);
        assert(s.len() == flat_count(n, lay));
        let cis = child_index_seq(n.children@, lay, base + 1);
        assert forall|i: int| 0 <= i < s.len() implies {
            let c = #[trigger] s[i];
            &&& if i == 0 {
                c.parent == parent
            } else {
                base <= c.parent < base + i
            }
            &&& forall|j: int|
                0 <= j < c.children.len() ==> {
                    &&& base + i < #[trigger] c.children[j] < base + s.len()
                    &&& s[c.children[j] - base].parent == base + i
                }
        } by {
            if i == 0 {
                assert(s[0] == head);
                assert forall|j: int| 0 <= j < head.children.len() implies {
                    &&& base < #[trigger] head.children[j] < base + s.len()
                    &&& s[head.children[j] - base].parent == base
                } by {
                    assert(head.children == cis);
                    let e = cis[j];
                    assert(base + 1 <= e < base + 1 + flat_count_seq(n.children@, lay));
                    assert(rest[e - (base + 1)].parent == base);
                    assert(s[e - base] == rest[e - base - 1]);
                }
            } else {
                let c = s[i];
                assert(c == rest[i - 1]);
                assert(forest_wf(rest, base, base + 1));
                assert(c.parent == base || base + 1 <= c.parent < base + 1 + (i - 1));
                assert forall|j: int| 0 <= j < c.children.len() implies {
                    &&& base + i < #[trigger] c.children[j] < base + s.len()
                    &&& s[c.children[j] - base].parent == base + i
                } by {
                    let e = c.children[j];
                    assert((base + 1) + (i - 1) < e < (base + 1) + rest.len());
                    assert(rest[e - (base + 1)].parent == (base + 1) + (i - 1));
                    assert(s[e - base] == rest[e - base - 1]);
                }
            }
        }
    } else {
        assert(flat_views(n, lay, parent, base).len() == 0);
    }
}

proof fn lemma_flat_wf_seq(cs: Seq<Node>, lay: Seq<LayoutRect>, parent: int, base: int)
    ensures
        flat_views_seq(cs, lay, parent, base).len() == flat_count_seq(cs, lay),
        forest_wf(flat_views_seq(cs, lay, parent, base), parent, base),
        child_index_seq(cs, lay, base).len() <= cs.len(),
        forall|k: int|
            0 <= k < child_index_seq(cs, lay, base).len() ==> {
                let e = #[trigger] child_index_seq(cs, lay, base)[k];
                &&& base <= e < base + flat_count_seq(cs, lay)
                &&& flat_views_seq(cs, lay, parent, base)[e - base].parent == parent
            },
    decreases cs,
{
    if cs.len() == 0 {
    } else {
        let front = cs.drop_last();
        let lastn = cs.last();
        lemma_flat_wf_seq(front, lay, parent, base);
        let cnt_front = flat_count_seq(front, lay);
        lemma_flat_wf(lastn, lay, parent, base + cnt_front);
        let s1 = flat_views_seq(front, lay, parent, base);
        let s2 = flat_views(lastn, lay, parent, base + cnt_front);
        let s = flat_views_seq(cs, lay, parent, base);
        assert(s == s1 + s2);
        assert(s.len() == flat_count_seq(cs, lay));
        let cis1 = child_index_seq(front, lay, base);
        let cis = child_index_seq(cs, lay, base);
        assert forall|i: int| 0 <= i < s.len() implies {
            let c = #[trigger] s[i];
            &&& (c.parent == parent || base <= c.parent < base + i)
            &&& forall|j: int|
                0 <= j < c.children.len() ==> {
                    &&& base + i < #[trigger] c.children[j] < base + s.len()
                    &&& s[c.children[j] - base].parent == base + i
                }
        } by {
            if i < s1.len() {
                let c = s[i];
                assert(c == s1[i]);
                assert forall|j: int| 0 <= j < c.children.len() implies {
                    &&& base + i < #[trigger] c.children[j] < base + s.len()
                    &&& s[c.children[j] - base].parent == base + i
                } by {
                    let e = c.children[j];
                    assert(base + i < e < base + s1.len());
                    assert(s[e - base] == s1[e - base]);
                }
            } else {
                let c = s[i];
                let b2 = base + cnt_front;
                let i2 = i - s1.len();
                assert(c == s2[i2]);
                assert(tree_wf(s2, parent, b2));
                if i2 == 0 {
                    assert(c.parent == parent);
                } else {
                    assert(b2 <= c.parent < b2 + i2);
                }
                assert forall|j: int| 0 <= j < c.children.len() implies {
                    &&& base + i < #[trigger] c.children[j] < base + s.len()
                    &&& s[c.children[j] - base].parent == base + i
                } by {
                    let e = c.children[j];
                    assert(b2 + i2 < e < b2 + s2.len());
                    assert(s2[e - b2].parent == b2 + i2);
                    assert(s[e - base] == s2[e - b2]);
                }
            }
        }
        assert forall|k: int| 0 <= k < cis.len() implies {
            let e = #[trigger] cis[k];
            &&& base <= e < base + flat_count_seq(cs, lay)
            &&& s[e - base].parent == parent
        } by {
            if k < cis1.len() {
                assert(cis[k] == cis1[k]);
                let e = cis1[k];
                assert(base <= e < base + cnt_front);
                assert(s1[e - base].parent == parent);
                assert(s[e - base] == s1[e - base]);
            } else {
                assert(node_emitted(lastn, lay));
                let e = cis[k];
                assert(e == base + cnt_front);
                assert(s2.len() == flat_count(lastn, lay));
                assert(flat_count(lastn, lay) >= 1);
                assert(s2[0].parent == parent);
                assert(s[e - base] == s2[0]);
            }
        }
    }
}

/// Structural invariants of a rebuilt registry: the root sits at index 0
/// with parent -1, every other container's parent index is smaller than its
/// own, and every `children` entry is in range, points forward, and names a
/// container whose parent is the referencing index.
pub open spec fn registry_wf(s: Seq<ContainerView>) -> bool {
    forall|i: int|
        0 <= i < s.len() ==> {
            let c = #[trigger] s[i];
            &&& if i == 0 {
                c.parent == -1
            } else {
                0 <= c.parent < i
            }
            &&& forall|j: int|
                0 <= j < c.children.len() ==> {
                    &&& i < #[trigger] c.children[j] < s.len()
                    &&& s[c.children[j]].parent == i
                }
        }
}

/// Every flattening satisfies the registry invariants: parent indices
/// precede their containers (the root excepted, with parent -1), and child
/// links are exact inverses of parent links.
pub proof fn lemma_flatten_registry_wf(root: Node, lay: Seq<LayoutRect>)
    ensures
        registry_wf(flatten_spec(root, lay)),
{
    lemma_flat_wf(root, lay, -1, 0);
    let s = flatten_spec(root, lay);
    assert(tree_wf(s, -1, 0));
}

/// The two registries agree on their hierarchy: same length, and the same
/// parent and children links at every index.
pub open spec fn same_structure(s1: Seq<ContainerView>, s2: Seq<ContainerView>) -> bool {
    &&& s1.len() == s2.len()
    &&& forall|i: int|
        0 <= i < s1.len() ==> #[trigger] s1[i].parent == s2[i].parent && s1[i].children
            == s2[i].children
}

/// The registry invariants depend on the hierarchy links alone, so they
/// carry over to any registry with the same structure.
pub proof fn lemma_registry_wf_same_structure(s1: Seq<ContainerView>, s2: Seq<ContainerView>)
    requires
        registry_wf(s1),
        same_structure(s1, s2),
    ensures
        registry_wf(s2),
{
    assert forall|i: int| 0 <= i < s2.len() implies {
        let c = #[trigger] s2[i];
        &&& if i == 0 {
            c.parent == -1
        } else {
            0 <= c.parent < i
        }
        &&& forall|j: int|
            0 <= j < c.children.len() ==> {
                &&& i < #[trigger] c.children[j] < s2.len()
                &&& s2[c.children[j]].parent == i
            }
    } by {
        assert(s1[i].parent == s2[i].parent);
        assert forall|j: int| 0 <= j < s2[i].children.len() implies {
            &&& i < #[trigger] s2[i].children[j] < s2.len()
            &&& s2[s2[i].children[j]].parent == i
        } by {
            assert(s1[i].children[j] == s2[i].children[j]);
            assert(s1[s1[i].children[j]].parent == i);
        }
    }
}

/// Emit the flattening of one subtree at the end of `out`: the node's own
/// record first (when its id has a layout entry), then its children's
/// subtrees, depth-first, children in source order.
pub(crate) fn flatten_into(n: &Node, layout: &LayoutMap, parent: i32, out: &mut Vec<Container>)
    requires
        old(out)@.len() + flat_count(*n, layout.entries@) <= i32::MAX as int,
    ensures
        views(final(out)@) == views(old(out)@) + flat_views(
            *n,
            layout.entries@,
            parent as int,
            old(out)@.len() as int,
        ),
    decreases *n,
{
    let ghost lay = layout.entries@;
    let ghost base = out@.len() as int;
    match layout.lookup(&n.id) {
        None => {
            proof {
                assert(views(out@) + flat_views(*n, lay, parent as int, base) =~= views(out@));
            }
        },
        Some(rect) => {
            let ghost rv = (RectView {
                x: rect.0 as int,
                y: rect.1 as int,
                width: rect.2 as int,
                height: rect.3 as int,
            });
            let my_index = out.len();
            let placeholder = Container {
                id: n.id.clone(),
                style_id: n.style_id.clone(),
                position: [rect.0, rect.1],
                size: [rect.2, rect.3],
                parent,
                children: Vec::new(),
                passive: n.passive,
                display: n.display,
                overflow: n.overflow,
                text: n.text.clone(),
                font: n.font.clone(),
                img: n.img.clone(),
                aspect_ratio: n.aspect_ratio,
                data: n.data.clone(),
                payload: n.payload,
                scroll_value: n.scroll_value,
                hovered: false,
                prev_hovered: false,
                clicked: false,
                prev_clicked: false,
                toggled: false,
                prev_toggled: false,
                toggle_value: false,
            };
            let ghost pv = placeholder@;
            out.push(placeholder);
            proof {
                assert(views(out@) =~= views(old(out)@) + seq![pv]);
            }
            let mut child_idxs: Vec<usize> = Vec::new();
            let ghost cs = n.children@;
            let mut j: usize = 0;
            while j < n.children.len()
                invariant
                    j <= cs.len(),
                    cs == n.children@,
                    lay == layout.entries@,
                    base == my_index as int,
                    base + flat_count(*n, lay) <= i32::MAX as int,
                    node_emitted(*n, lay),
                    flat_count(*n, lay) == 1 + flat_count_seq(cs, lay),
                    out@.len() == base + 1 + flat_count_seq(cs.take(j as int), lay),
                    views(out@) == views(old(out)@) + seq![pv] + flat_views_seq(
                        cs.take(j as int),
                        lay,
                        base,
                        base + 1,
                    ),
                    child_idxs@.map_values(|u: usize| u as int) == child_index_seq(
                        cs.take(j as int),
                        lay,
                        base + 1,
                    ),
                decreases cs.len() - j,
            {
                proof {
                    lemma_count_prefix(cs, lay, j as int);
                    lemma_count_take_succ(cs, lay, j as int);
                    lemma_views_take_succ(cs, lay, base, base + 1, j as int);
                    lemma_child_index_take_succ(cs, lay, base + 1, j as int);
                    lemma_flat_wf(
                        cs[j as int],
                        lay,
                        base,
                        base + 1 + flat_count_seq(cs.take(j as int), lay),
                    );
                }
                proof {
                    assert(my_index as i32 as int == base);
                }
                let child = &n.children[j];
                if layout.contains(&child.id) {
                    child_idxs.push(out.len());
                    proof {
                        assert(child_idxs@.map_values(|u: usize| u as int) =~= child_index_seq(
                            cs.take(j as int + 1),
                            lay,
                            base + 1,
                        ));
                    }
                }
                let ghost prev = out@;
                let ghost prev_len = out@.len() as int;
                flatten_into(child, layout, my_index as i32, out);
                proof {
                    assert(views(out@) == views(prev) + flat_views(cs[j as int], lay, base, prev_len));
                    assert(flat_views(cs[j as int], lay, base, prev_len).len() == flat_count(
                        cs[j as int],
                        lay,
                    ));
                    assert(out@.len() == base + 1 + flat_count_seq(cs.take(j as int + 1), lay));
                    assert(views(out@) =~= views(old(out)@) + seq![pv] + flat_views_seq(
                        cs.take(j as int + 1),
                        lay,
                        base,
                        base + 1,
                    ));
                }
                j += 1;
            }
            proof {
                assert(cs.take(cs.len() as int) =~= cs);
            }
            let full = Container {
                id: n.id.clone(),
                style_id: n.style_id.clone(),
                position: [rect.0, rect.1],
                size: [rect.2, rect.3],
                parent,
                children: child_idxs,
                passive: n.passive,
                display: n.display,
                overflow: n.overflow,
                text: n.text.clone(),
                font: n.font.clone(),
                img: n.img.clone(),
                aspect_ratio: n.aspect_ratio,
                data: n.data.clone(),
                payload: n.payload,
                scroll_value: n.scroll_value,
                hovered: false,
                prev_hovered: false,
                clicked: false,
                prev_clicked: false,
                toggled: false,
                prev_toggled: false,
                toggle_value: false,
            };
            proof {
                assert(full@.children =~= child_index_seq(cs, lay, base + 1));
                assert(full@ == emitted_view(*n, rv, parent as int, base, lay));
                assert(layout_lookup(lay, n.id@) == Some(rv));
                assert(flat_views(*n, lay, parent as int, base) == seq![
                    emitted_view(*n, rv, parent as int, base, lay),
                ] + flat_views_seq(cs, lay, base, base + 1));
            }
            let ghost pre = out@;
            out.set(my_index, full);
            proof {
                let ghost ev = emitted_view(*n, rv, parent as int, base, lay);
                let ghost fvs = flat_views_seq(cs, lay, base, base + 1);
                let ghost lhs = views(out@);
                let ghost rhs = views(old(out)@) + flat_views(*n, lay, parent as int, base);
                assert(out@ == pre.update(my_index as int, full));
                assert(views(pre) == views(old(out)@) + seq![pv] + fvs);
                assert(lhs.len() == rhs.len());
                assert forall|i: int| 0 <= i < lhs.len() implies lhs[i] == rhs[i] by {
                    if i == base {
                        assert(out@[i] == full);
                        assert(lhs[i] == full@);
                        assert(rhs[i] == ev);
                    } else {
                        assert(out@[i] == pre[i]);
                        assert(lhs[i] == pre[i]@);
                        assert(pre[i]@ == views(pre)[i]);
                        if i < base {
                            assert(views(pre)[i] == views(old(out)@)[i]);
                            assert(rhs[i] == views(old(out)@)[i]);
                        } else {
                            assert(views(pre)[i] == fvs[i - base - 1]);
                            assert(rhs[i] == (seq![ev] + fvs)[i - base]);
                        }
                    }
                }
                assert(lhs =~= rhs);
            }
        },
    }
}

/// Flattening is deterministic: two flattenings of the same tree and layout
/// map hold identical registry contents.
pub proof fn lemma_flatten_deterministic(
    root: Node,
    lay: Seq<LayoutRect>,
    r1: Seq<ContainerView>,
    r2: Seq<ContainerView>,
)
    requires
        r1 == flatten_spec(root, lay),
        r2 == flatten_spec(root, lay),
    ensures
        r1 == r2,
{
}

} // verus!
