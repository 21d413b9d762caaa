//! The container registry owner: rebuilds the flat container array from a
//! host tree and offers the host-facing bulk mutation APIs.
//!
//! Both bulk APIs are deliberately lenient: an out-of-range index or an
//! unknown id is silently ignored, so one stale entry cannot abort a batch.

use vstd::prelude::*;
use vstd::pervasive::VecAdditionalExecFns;
use crate::container::Container;
use crate::container::ContainerView;
use crate::flatten::LayoutMap;
use crate::flatten::Node;
use crate::flatten::flat_count;
use crate::flatten::flatten_into;
use crate::flatten::flatten_spec;
use crate::flatten::views;

verus! {

/// Addition on fixed-point coordinates, saturating at the ends of the
/// representable range.
pub open spec fn sat_add_spec(a: int, b: int) -> int {
    if a + b > i64::MAX {
        i64::MAX as int
    } else if a + b < i64::MIN {
        i64::MIN as int
    } else {
        a + b
    }
}

fn sat_add(a: i64, b: i64) -> (r: i64)
    ensures
        r as int == sat_add_spec(a as int, b as int),
{
    match a.checked_add(b) {
        Some(v) => v,
        None => if b > 0 {
            i64::MAX
        } else {
            i64::MIN
        },
    }
}

/// The container with the given offset added to its position; every other
/// field unchanged.
pub open spec fn apply_offset(c: ContainerView, dx: int, dy: int) -> ContainerView {
    ContainerView { x: sat_add_spec(c.x, dx), y: sat_add_spec(c.y, dy), ..c }
}

/// The registry contents after the position batch entries from `k` on have
/// been applied in order; an out-of-range index leaves the registry as it
/// was.
pub open spec fn positions_bulk_spec(
    s: Seq<ContainerView>,
    idxs: Seq<usize>,
    xs: Seq<i64>,
    ys: Seq<i64>,
    k: int,
) -> Seq<ContainerView>
    decreases idxs.len() - k,
{
    if k < 0 || k >= idxs.len() {
        s
    } else {
        let s1 = if (idxs[k] as int) < s.len() {
            s.update(idxs[k] as int, apply_offset(s[idxs[k] as int], xs[k] as int, ys[k] as int))
        } else {
            s
        };
        positions_bulk_spec(s1, idxs, xs, ys, k + 1)
    }
}

/// The container with its current hover/click shifted into the previous
/// slots, and the current flags overwritten only where the batch supplies a
/// value; every other field unchanged.
pub open spec fn apply_state(c: ContainerView, h: Option<bool>, k: Option<bool>) -> ContainerView {
    ContainerView {
        prev_hovered: c.hovered,
        prev_clicked: c.clicked,
        hovered: match h {
            Some(b) => b,
            None => c.hovered,
        },
        clicked: match k {
            Some(b) => b,
            None => c.clicked,
        },
        ..c
    }
}

/// Index `i` holds the first container with this id.
pub open spec fn is_first_with_id(s: Seq<ContainerView>, id: Seq<char>, i: int) -> bool {
    &&& 0 <= i < s.len()
    &&& s[i].id == id
    &&& forall|m: int| 0 <= m < i ==> (#[trigger] s[m]).id != id
}

/// Some container carries this id.
pub open spec fn has_id(s: Seq<ContainerView>, id: Seq<char>) -> bool {
    exists|i: int| 0 <= i < s.len() && (#[trigger] s[i]).id == id
}

/// The registry after one state batch entry: the first container with the
/// given id is updated; an unknown id leaves the registry as it was.
pub open spec fn state_update_one(
    s: Seq<ContainerView>,
    id: Seq<char>,
    h: Option<bool>,
    k: Option<bool>,
) -> Seq<ContainerView> {
    if has_id(s, id) {
        let i = choose|i: int| is_first_with_id(s, id, i);
        s.update(i, apply_state(s[i], h, k))
    } else {
        s
    }
}

/// The registry contents after the state batch entries from `k` on have
/// been applied in order. A channel whose sequence is shorter than the id
/// list leaves that channel's current value in place for the ids beyond its
/// length.
pub open spec fn states_bulk_spec(
    s: Seq<ContainerView>,
    ids: Seq<Seq<char>>,
    hov: Seq<bool>,
    clk: Seq<bool>,
    k: int,
) -> Seq<ContainerView>
    decreases ids.len() - k,
{
    if k < 0 || k >= ids.len() {
        s
    } else {
        let h = if k < hov.len() {
            Some(hov[k])
        } else {
            None
        };
        let c = if k < clk.len() {
            Some(clk[k])
        } else {
            None
        };
        states_bulk_spec(state_update_one(s, ids[k], h, c), ids, hov, clk, k + 1)
    }
}

/// A position batch never touches the hierarchy links.
proof fn lemma_positions_bulk_same_structure(
    s: Seq<ContainerView>,
    idxs: Seq<usize>,
    xs: Seq<i64>,
    ys: Seq<i64>,
    k: int,
)
    ensures
        crate::flatten::same_structure(s, positions_bulk_spec(s, idxs, xs, ys, k)),
    decreases idxs.len() - k,
{
    if k < 0 || k >= idxs.len() {
    } else {
        let s1 = if (idxs[k] as int) < s.len() {
            s.update(idxs[k] as int, apply_offset(s[idxs[k] as int], xs[k] as int, ys[k] as int))
        } else {
            s
        };
        assert(crate::flatten::same_structure(s, s1));
        lemma_positions_bulk_same_structure(s1, idxs, xs, ys, k + 1);
        assert(positions_bulk_spec(s, idxs, xs, ys, k) == positions_bulk_spec(
            s1,
            idxs,
            xs,
            ys,
            k + 1,
        ));
    }
}

/// Below any container with this id there is a first one.
proof fn lemma_first_exists_below(s: Seq<ContainerView>, id: Seq<char>, w: int)
    requires
        0 <= w < s.len(),
        s[w].id == id,
    ensures
        exists|i: int| is_first_with_id(s, id, i),
    decreases w,
{
    if forall|m: int| 0 <= m < w ==> (#[trigger] s[m]).id != id {
        assert(is_first_with_id(s, id, w));
    } else {
        let m = choose|m: int| 0 <= m < w && (#[trigger] s[m]).id == id;
        lemma_first_exists_below(s, id, m);
    }
}

/// One state update never touches the hierarchy links.
proof fn lemma_state_update_one_same_structure(
    s: Seq<ContainerView>,
    id: Seq<char>,
    h: Option<bool>,
    k: Option<bool>,
)
    ensures
        crate::flatten::same_structure(s, state_update_one(s, id, h, k)),
{
    if has_id(s, id) {
        let w = choose|i: int| 0 <= i < s.len() && (#[trigger] s[i]).id == id;
        lemma_first_exists_below(s, id, w);
        let i = choose|i: int| is_first_with_id(s, id, i);
        assert(is_first_with_id(s, id, i));
    }
}

/// A state batch never touches the hierarchy links.
proof fn lemma_states_bulk_same_structure(
    s: Seq<ContainerView>,
    ids: Seq<Seq<char>>,
    hov: Seq<bool>,
    clk: Seq<bool>,
    k: int,
)
    ensures
        crate::flatten::same_structure(s, states_bulk_spec(s, ids, hov, clk, k)),
    decreases ids.len() - k,
{
    if k < 0 || k >= ids.len() {
    } else {
        let h = if k < hov.len() {
            Some(hov[k])
        } else {
            None
        };
        let c = if k < clk.len() {
            Some(clk[k])
        } else {
            None
        };
        lemma_state_update_one_same_structure(s, ids[k], h, c);
        lemma_states_bulk_same_structure(state_update_one(s, ids[k], h, c), ids, hov, clk, k + 1);
    }
}

/// The registry invariants established by a flatten survive any batch of
/// position offsets: offsets move rectangles, never hierarchy links.
pub proof fn lemma_positions_bulk_preserves_wf(
    s: Seq<ContainerView>,
    idxs: Seq<usize>,
    xs: Seq<i64>,
    ys: Seq<i64>,
)
    requires
        crate::flatten::registry_wf(s),
    ensures
        crate::flatten::registry_wf(positions_bulk_spec(s, idxs, xs, ys, 0)),
{
    lemma_positions_bulk_same_structure(s, idxs, xs, ys, 0);
    crate::flatten::lemma_registry_wf_same_structure(s, positions_bulk_spec(s, idxs, xs, ys, 0));
}

/// The registry invariants survive any batch of state overrides: the batch
/// rewrites interaction flags, never hierarchy links.
pub proof fn lemma_states_bulk_preserves_wf(
    s: Seq<ContainerView>,
    ids: Seq<Seq<char>>,
    hov: Seq<bool>,
    clk: Seq<bool>,
)
    requires
        crate::flatten::registry_wf(s),
    ensures
        crate::flatten::registry_wf(states_bulk_spec(s, ids, hov, clk, 0)),
{
    lemma_states_bulk_same_structure(s, ids, hov, clk, 0);
    crate::flatten::lemma_registry_wf_same_structure(s, states_bulk_spec(s, ids, hov, clk, 0));
}

proof fn lemma_first_with_id_unique(s: Seq<ContainerView>, id: Seq<char>, i: int, j: int)
    requires
        is_first_with_id(s, id, i),
        is_first_with_id(s, id, j),
    ensures
        i == j,
{
}

proof fn lemma_views_update(s: Seq<Container>, i: int, c: Container)
    requires
        0 <= i < s.len(),
    ensures
        views(s.update(i, c)) == views(s).update(i, c@),
{
    assert(views(s.update(i, c)) =~= views(s).update(i, c@));
}

/// An element-by-element copy of a container list.
fn duplicate_list(v: &Vec<Container>) -> (r: Vec<Container>)
    ensures
        views(r@) == views(v@),
{
    let mut r: Vec<Container> = Vec::new();
    let mut i: usize = 0;
    while i < v.len()
        invariant
            i <= v@.len(),
            r@.len() == i,
            views(r@) == views(v@.take(i as int)),
        decreases v@.len() - i,
    {
        let item = &v[i];
        let d = item.duplicate();
        let ghost pre = r@;
        r.push(d);
        proof {
            assert forall|m: int| 0 <= m < r@.len() implies views(r@)[m] == views(
                v@.take(i as int + 1),
            )[m] by {
                if m < i as int {
                    assert(r@[m] == pre[m]);
                    assert(views(pre)[m] == views(v@.take(i as int))[m]);
                    assert(v@.take(i as int)[m] == v@.take(i as int + 1)[m]);
                } else {
                    assert(r@[m]@ == v@[i as int]@);
                }
            }
            assert(views(r@) =~= views(v@.take(i as int + 1)));
        }
        i += 1;
    }
    proof {
        assert(v@.take(v@.len() as int) =~= v@);
    }
    r
}

/// Owns the flat, indexed container array and rebuilds it from the host
/// tree on structural change.
pub struct ContainerProcessor {
    containers: Vec<Container>,
}

impl View for ContainerProcessor {
    type V = Seq<ContainerView>;

    closed spec fn view(&self) -> Seq<ContainerView> {
        views(self.containers@)
    }
}

impl ContainerProcessor {
    /// An empty registry.
    pub fn new() -> (r: ContainerProcessor)
        ensures
            r@ == Seq::<ContainerView>::empty(),
    {
        let r = ContainerProcessor { containers: Vec::new() };
        proof {
            assert(r@ =~= Seq::<ContainerView>::empty());
        }
        r
    }

    /// Clear the registry and rebuild it from the host tree and the
    /// external absolute-layout map, depth first, children in source order;
    /// a node without a layout entry is skipped together with its whole
    /// subtree. Returns a copy of the rebuilt registry. The emitted count
    /// must fit the parent-index type.
    ///
    /// The rebuilt contents are a function of the two inputs alone, so a
    /// repeated flatten of the same input is byte-identical.
    pub fn flatten_tree(&mut self, root: &Node, layout: &LayoutMap) -> (result: Vec<Container>)
        requires
            flat_count(*root, layout.entries@) <= i32::MAX as int,
        ensures
            final(self)@ == flatten_spec(*root, layout.entries@),
            views(result@) == flatten_spec(*root, layout.entries@),
    {
        self.containers = Vec::new();
        flatten_into(root, layout, -1, &mut self.containers);
        proof {
            assert(views(Seq::<Container>::empty()) =~= Seq::<ContainerView>::empty());
            assert(self@ =~= flatten_spec(*root, layout.entries@));
        }
        duplicate_list(&self.containers)
    }

    /// A copy of the registry, index-aligned with it.
    pub fn get_containers(&self) -> (r: Vec<Container>)
        ensures
            views(r@) == self@,
    {
        duplicate_list(&self.containers)
    }

    /// For each position of the three equal-length batches, add the offset
    /// pair to the container at that index; an out-of-range index is
    /// silently ignored. Offsets saturate at the ends of the coordinate
    /// range.
    pub fn update_positions_bulk(
        &mut self,
        container_indices: &Vec<usize>,
        x_offsets: &Vec<i64>,
        y_offsets: &Vec<i64>,
    )
        requires
            container_indices@.len() == x_offsets@.len(),
            container_indices@.len() == y_offsets@.len(),
        ensures
            final(self)@ == positions_bulk_spec(
                old(self)@,
                container_indices@,
                x_offsets@,
                y_offsets@,
                0,
            ),
    {
        let ghost idxs = container_indices@;
        let ghost xs = x_offsets@;
        let ghost ys = y_offsets@;
        let mut k: usize = 0;
        while k < container_indices.len()
            invariant
                k <= idxs.len(),
                idxs == container_indices@,
                xs == x_offsets@,
                ys == y_offsets@,
                idxs.len() == xs.len(),
                idxs.len() == ys.len(),
                positions_bulk_spec(old(self)@, idxs, xs, ys, 0) == positions_bulk_spec(
                    self@,
                    idxs,
                    xs,
                    ys,
                    k as int,
                ),
            decreases idxs.len() - k,
        {
            let index = container_indices[k];
            if index < self.containers.len() {
                let dx = x_offsets[k];
                let dy = y_offsets[k];
                let nx = sat_add(self.containers[index].position[0], dx);
                let ny = sat_add(self.containers[index].position[1], dy);
                let mut c = self.containers[index].duplicate();
                c.position = [nx, ny];
                proof {
                    assert(c@ == apply_offset(self@[index as int], dx as int, dy as int));
                    lemma_views_update(self.containers@, index as int, c);
                }
                self.containers.set(index, c);
            }
            k += 1;
        }
    }

    /// For each id found in the registry (first match by a front-to-back
    /// scan), shift its current hover/click into the previous slots, then
    /// overwrite the current flag only where the corresponding positional
    /// entry exists in that channel's sequence; an unknown id is silently
    /// ignored.
    #[verifier::rlimit(50)]
    pub fn update_states_bulk(
        &mut self,
        container_ids: &Vec<String>,
        hovered: &Vec<bool>,
        clicked: &Vec<bool>,
    )
        ensures
            final(self)@ == states_bulk_spec(
                old(self)@,
                container_ids@.map_values(|s: String| s@),
                hovered@,
                clicked@,
                0,
            ),
    {
        let ghost ids = container_ids@.map_values(|s: String| s@);
        let ghost hov = hovered@;
        let ghost clk = clicked@;
        let mut k: usize = 0;
        while k < container_ids.len()
            invariant
                k <= ids.len(),
                ids == container_ids@.map_values(|s: String| s@),
                hov == hovered@,
                clk == clicked@,
                states_bulk_spec(old(self)@, ids, hov, clk, 0) == states_bulk_spec(
                    self@,
                    ids,
                    hov,
                    clk,
                    k as int,
                ),
            decreases ids.len() - k,
        {
            let id = &container_ids[k];
            proof {
                assert(id@ == ids[k as int]);
            }
            let ghost h = if (k as int) < hov.len() {
                Some(hov[k as int])
            } else {
                None
            };
            let ghost cc = if (k as int) < clk.len() {
                Some(clk[k as int])
            } else {
                None
            };
            let ghost pre = self@;
            let mut i: usize = 0;
            let mut found: bool = false;
            while i < self.containers.len() && !found
                invariant
                    i <= pre.len(),
                    pre == self@,
                    !found ==> forall|m: int| 0 <= m < i ==> (#[trigger] pre[m]).id != id@,
                    found ==> is_first_with_id(pre, id@, i as int),
                decreases pre.len() - i, (if found { 0int } else { 1int }),
            {
                if self.containers[i].id == *id {
                    found = true;
                } else {
                    i += 1;
                }
            }
            if found {
                proof {
                    assert(has_id(pre, id@));
                    let w = choose|w: int| is_first_with_id(pre, id@, w);
                    lemma_first_with_id_unique(pre, id@, w, i as int);
                }
                let cur_h = self.containers[i].hovered;
                let cur_c = self.containers[i].clicked;
                let mut c = self.containers[i].duplicate();
                c.prev_hovered = cur_h;
                c.prev_clicked = cur_c;
                if k < hovered.len() {
                    c.hovered = hovered[k];
                }
                if k < clicked.len() {
                    c.clicked = clicked[k];
                }
                proof {
                    assert(c@ == apply_state(pre[i as int], h, cc));
                    lemma_views_update(self.containers@, i as int, c);
                    assert(views(self.containers@.update(i as int, c)) == state_update_one(
                        pre,
                        id@,
                        h,
                        cc,
                    ));
                }
                self.containers.set(i, c);
            } else {
                proof {
                    assert(!has_id(pre, id@));
                    assert(state_update_one(pre, id@, h, cc) == pre);
                }
            }
            proof {
                assert(self@ == state_update_one(pre, ids[k as int], h, cc));
                assert(states_bulk_spec(pre, ids, hov, clk, k as int) == states_bulk_spec(
                    self@,
                    ids,
                    hov,
                    clk,
                    k as int + 1,
                ));
            }
            k += 1;
        }
    }
}

} // verus!
