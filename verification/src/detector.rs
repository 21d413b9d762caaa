//! The hit tester: per-frame hover/click resolution over the container
//! registry, honoring the occlusion rule (a hit child takes input precedence
//! over its ancestors) and the passive/visibility gates.
//!
//! `detect_hits` runs in two strict phases: a read phase that computes every
//! container's result from a read-only snapshot — data-parallel above a
//! configurable container-count threshold — and a sequential write phase
//! that commits the new hover/click flags afterwards. The threshold is a
//! performance tunable only: both paths meet the same contract.

use vstd::prelude::*;
use vstd::pervasive::VecAdditionalExecFns;
use rayon::iter::IntoParallelIterator;
use rayon::iter::ParallelIterator;
use crate::container::Container;
use crate::container::ContainerView;
use crate::container::HitTestResult;
use crate::container::HitTestResultView;
use crate::container::MouseState;
use crate::container::container_contains;
use crate::flatten::views;

verus! {

/// Default container count above which the read phase runs in parallel.
pub const DEFAULT_PARALLEL_THRESHOLD: usize = 100;

/// Some direct child of `c` is not passive and contains the pointer; such a
/// child occludes `c`. A child link that points outside the registry is
/// ignored, and a hidden child still occludes: the child scan gates on the
/// child's passive flag alone.
pub open spec fn any_child_hit(s: Seq<ContainerView>, c: ContainerView, px: int, py: int) -> bool {
    exists|j: int|
        {
            &&& 0 <= j < c.children.len()
            &&& 0 <= #[trigger] c.children[j] < s.len()
            &&& !s[c.children[j]].passive
            &&& container_contains(s[c.children[j]], px, py)
        }
}

/// The read-phase result for the container at index `i`: a passive or
/// hidden container gets all-false hit flags, any other container is
/// hovered exactly when the pointer is in its bounds and no child occludes
/// it, and clicked exactly when it is hovered and the pointer is clicked.
/// The changed flags always compare against the previous frame's state.
pub open spec fn hit_result_spec(
    s: Seq<ContainerView>,
    px: int,
    py: int,
    clicked: bool,
    i: int,
) -> HitTestResultView {
    let c = s[i];
    if c.passive || !c.display {
        HitTestResultView {
            container_id: c.id,
            is_hovered: false,
            is_clicked: false,
            hover_changed: c.prev_hovered != false,
            click_changed: c.prev_clicked != false,
            has_children_hit: false,
        }
    } else {
        let in_b = container_contains(c, px, py);
        let hch = any_child_hit(s, c, px, py);
        let hov = in_b && !hch;
        let clk = hov && clicked;
        HitTestResultView {
            container_id: c.id,
            is_hovered: hov,
            is_clicked: clk,
            hover_changed: hov != c.prev_hovered,
            click_changed: clk != c.prev_clicked,
            has_children_hit: hch,
        }
    }
}

/// The result a hit query returns for an index outside the registry.
pub open spec fn out_of_range_hit_result() -> HitTestResultView {
    HitTestResultView {
        container_id: Seq::empty(),
        is_hovered: false,
        is_clicked: false,
        hover_changed: false,
        click_changed: false,
        has_children_hit: false,
    }
}

/// The full read-phase output: one result per container, index-aligned with
/// the registry. A function of the snapshot and pointer state alone.
pub open spec fn hit_results_spec(
    s: Seq<ContainerView>,
    px: int,
    py: int,
    clicked: bool,
) -> Seq<HitTestResultView> {
    Seq::new(s.len(), |i: int| hit_result_spec(s, px, py, clicked, i))
}

/// The write-phase commit for one container: current hover/click move into
/// the previous slots and the read-phase outcome becomes current; every
/// other field is unchanged.
pub open spec fn commit_view(c: ContainerView, r: HitTestResultView) -> ContainerView {
    ContainerView {
        prev_hovered: c.hovered,
        hovered: r.is_hovered,
        prev_clicked: c.clicked,
        clicked: r.is_clicked,
        ..c
    }
}

/// The registry after a full hit-test pass over the given snapshot.
pub open spec fn commit_all(
    s: Seq<ContainerView>,
    px: int,
    py: int,
    clicked: bool,
) -> Seq<ContainerView> {
    Seq::new(s.len(), |i: int| commit_view(s[i], hit_result_spec(s, px, py, clicked, i)))
}

/// Mathematical model of a [`HitDetector`].
pub ghost struct DetectorView {
    pub containers: Seq<ContainerView>,
    pub mouse_x: int,
    pub mouse_y: int,
    pub mouse_clicked: bool,
    pub scroll_delta: int,
    pub parallel_threshold: int,
}

/// Per-frame hit detection over a loaded container snapshot.
pub struct HitDetector {
    containers: Vec<Container>,
    mouse_state: MouseState,
    parallel_threshold: usize,
}

impl View for HitDetector {
    type V = DetectorView;

    closed spec fn view(&self) -> DetectorView {
        DetectorView {
            containers: views(self.containers@),
            mouse_x: self.mouse_state.x as int,
            mouse_y: self.mouse_state.y as int,
            mouse_clicked: self.mouse_state.clicked,
            scroll_delta: self.mouse_state.scroll_delta as int,
            parallel_threshold: self.parallel_threshold as int,
        }
    }
}

impl HitDetector {
    /// A detector with no containers, the pointer at the origin, and the
    /// default parallel threshold.
    pub fn new() -> (r: HitDetector)
        ensures
            r@.containers == Seq::<ContainerView>::empty(),
            r@.mouse_x == 0,
            r@.mouse_y == 0,
            r@.mouse_clicked == false,
            r@.scroll_delta == 0,
            r@.parallel_threshold == DEFAULT_PARALLEL_THRESHOLD as int,
    {
        let r = HitDetector {
            containers: Vec::new(),
            mouse_state: MouseState { x: 0, y: 0, clicked: false, scroll_delta: 0 },
            parallel_threshold: DEFAULT_PARALLEL_THRESHOLD,
        };
        proof {
            assert(r@.containers =~= Seq::<ContainerView>::empty());
        }
        r
    }

    /// Replace the container snapshot; pointer state and threshold stay.
    pub fn load_containers(&mut self, container_list: Vec<Container>)
        ensures
            final(self)@ == (DetectorView { containers: views(container_list@), ..old(self)@ }),
    {
        self.containers = container_list;
    }

    /// Set the pointer state for the coming hit-test pass.
    pub fn update_mouse(&mut self, x: i64, y: i64, clicked: bool, scroll_delta: i64)
        ensures
            final(self)@ == (DetectorView {
                mouse_x: x as int,
                mouse_y: y as int,
                mouse_clicked: clicked,
                scroll_delta: scroll_delta as int,
                ..old(self)@
            }),
    {
        self.mouse_state.x = x;
        self.mouse_state.y = y;
        self.mouse_state.clicked = clicked;
        self.mouse_state.scroll_delta = scroll_delta;
    }

    /// Override the container count above which the read phase runs in
    /// parallel. Results are identical on both sides of the threshold.
    pub fn set_parallel_threshold(&mut self, threshold: usize)
        ensures
            final(self)@ == (DetectorView {
                parallel_threshold: threshold as int,
                ..old(self)@
            }),
    {
        self.parallel_threshold = threshold;
    }

    /// Whether the pointer is over the container at this index, gated on
    /// the passive flag alone; an out-of-range index is not hovered.
    pub fn detect_hover(&self, container_index: usize) -> (r: bool)
        ensures
            r == {
                let s = self@.containers;
                &&& (container_index as int) < s.len()
                &&& !s[container_index as int].passive
                &&& container_contains(s[container_index as int], self@.mouse_x, self@.mouse_y)
            },
    {
        if container_index >= self.containers.len() {
            return false;
        }
        let container = &self.containers[container_index];
        if container.passive {
            return false;
        }
        container.contains_point(self.mouse_state.x, self.mouse_state.y)
    }

    /// Whether any direct child of the container at this index occludes the
    /// pointer: the same child scan the read phase applies. An out-of-range
    /// index has no children.
    pub fn any_children_hovered(&self, container_index: usize) -> (r: bool)
        ensures
            r == {
                let s = self@.containers;
                &&& (container_index as int) < s.len()
                &&& any_child_hit(s, s[container_index as int], self@.mouse_x, self@.mouse_y)
            },
    {
        if container_index >= self.containers.len() {
            return false;
        }
        let ghost s = self@.containers;
        let ghost c = s[container_index as int];
        let container = &self.containers[container_index];
        let ghost kids = container@.children;
        proof {
            assert(kids == c.children);
        }
        let mut j: usize = 0;
        while j < container.children.len()
            invariant
                j <= kids.len(),
                kids == c.children,
                kids.len() == container.children@.len(),
                s == self@.containers,
                c == s[container_index as int],
                (container_index as int) < s.len(),
                container@ == c,
                forall|m: int|
                    0 <= m < j ==> !{
                        &&& 0 <= #[trigger] kids[m] < s.len()
                        &&& !s[kids[m]].passive
                        &&& container_contains(s[kids[m]], self@.mouse_x, self@.mouse_y)
                    },
            decreases kids.len() - j,
        {
            let child_index = container.children[j];
            if child_index < self.containers.len() {
                let child = &self.containers[child_index];
                if !child.passive && child.contains_point(self.mouse_state.x, self.mouse_state.y) {
                    proof {
                        assert(kids[j as int] == child_index as int);
                        assert(any_child_hit(s, c, self@.mouse_x, self@.mouse_y));
                    }
                    return true;
                }
            }
            j += 1;
        }
        false
    }

    /// The read-phase result for one container, computed from the current
    /// snapshot without mutating anything; an out-of-range index yields the
    /// all-false result with an empty id.
    pub fn process_container_hit(&self, index: usize) -> (r: HitTestResult)
        ensures
            (index as int) < self@.containers.len() ==> r@ == hit_result_spec(
                self@.containers,
                self@.mouse_x,
                self@.mouse_y,
                self@.mouse_clicked,
                index as int,
            ),
            (index as int) >= self@.containers.len() ==> r@ == out_of_range_hit_result(),
    {
        if index >= self.containers.len() {
            let r = HitTestResult {
                container_id: String::new(),
                is_hovered: false,
                is_clicked: false,
                hover_changed: false,
                click_changed: false,
                has_children_hit: false,
            };
            return r;
        }
        let container = &self.containers[index];
        if container.passive || !container.display {
            return HitTestResult {
                container_id: container.id.clone(),
                is_hovered: false,
                is_clicked: false,
                hover_changed: container.prev_hovered != false,
                click_changed: container.prev_clicked != false,
                has_children_hit: false,
            };
        }
        let is_in_bounds = container.contains_point(self.mouse_state.x, self.mouse_state.y);
        let has_children_hit = self.any_children_hovered(index);
        let is_hovered = is_in_bounds && !has_children_hit;
        let is_clicked = is_hovered && self.mouse_state.clicked;
        HitTestResult {
            container_id: container.id.clone(),
            is_hovered,
            is_clicked,
            hover_changed: is_hovered != container.prev_hovered,
            click_changed: is_clicked != container.prev_clicked,
            has_children_hit,
        }
    }

    /// The read phase, serially: one result per container, in index order.
    fn serial_hit_results(&self) -> (r: Vec<HitTestResult>)
        ensures
            r@.map_values(|t: HitTestResult| t@) == hit_results_spec(
                self@.containers,
                self@.mouse_x,
                self@.mouse_y,
                self@.mouse_clicked,
            ),
    {
        let mut r: Vec<HitTestResult> = Vec::new();
        let mut i: usize = 0;
        while i < self.containers.len()
            invariant
                i <= self@.containers.len(),
                r@.len() == i,
                forall|m: int|
                    0 <= m < i ==> (#[trigger] r@[m])@ == hit_result_spec(
                        self@.containers,
                        self@.mouse_x,
                        self@.mouse_y,
                        self@.mouse_clicked,
                        m,
                    ),
            decreases self@.containers.len() - i,
        {
            let one = self.process_container_hit(i);
            r.push(one);
            i += 1;
        }
        proof {
            assert(r@.map_values(|t: HitTestResult| t@) =~= hit_results_spec(
                self@.containers,
                self@.mouse_x,
                self@.mouse_y,
                self@.mouse_clicked,
            ));
        }
        r
    }

    /// The read phase, data-parallel.
    ///
    /// Relies on rayon: `(0..n).into_par_iter().map(f).collect::<Vec<_>>()`
    /// applies `f` to every index of the range and collects the outputs in
    /// index order (rayon's IndexedParallelIterator keeps the ordering);
    /// the closure only calls the verified `process_container_hit`, whose
    /// contract gives each element's value.
    #[verifier::external_body]
    fn par_hit_results(&self) -> (r: Vec<HitTestResult>)
        ensures
            r@.len() == self@.containers.len(),
            forall|i: int|
                0 <= i < r@.len() ==> (#[trigger] r@[i])@ == hit_result_spec(
                    self@.containers,
                    self@.mouse_x,
                    self@.mouse_y,
                    self@.mouse_clicked,
                    i,
                ),
    {
        (0..self.containers.len()).into_par_iter().map(|i| self.process_container_hit(i)).collect()
    }

    /// One full hit-test pass: the read phase computes every container's
    /// result from a snapshot of the registry — in parallel when the
    /// container count exceeds the threshold, serially otherwise, with
    /// identical output either way — and the sequential write phase then
    /// shifts every container's current hover/click into its previous slots
    /// and commits the new flags.
    pub fn detect_hits(&mut self) -> (results: Vec<HitTestResult>)
        ensures
            results@.map_values(|t: HitTestResult| t@) == hit_results_spec(
                old(self)@.containers,
                old(self)@.mouse_x,
                old(self)@.mouse_y,
                old(self)@.mouse_clicked,
            ),
            final(self)@ == (DetectorView {
                containers: commit_all(
                    old(self)@.containers,
                    old(self)@.mouse_x,
                    old(self)@.mouse_y,
                    old(self)@.mouse_clicked,
                ),
                ..old(self)@
            }),
    {
        let ghost snapshot = self@.containers;
        let ghost px = self@.mouse_x;
        let ghost py = self@.mouse_y;
        let ghost clk = self@.mouse_clicked;
        let results = if self.containers.len() > self.parallel_threshold {
            self.par_hit_results()
        } else {
            self.serial_hit_results()
        };
        proof {
            assert(results@.map_values(|t: HitTestResult| t@) =~= hit_results_spec(
                snapshot,
                px,
                py,
                clk,
            ));
        }
        let mut i: usize = 0;
        while i < self.containers.len()
            invariant
                i <= snapshot.len(),
                self.containers@.len() == snapshot.len(),
                results@.len() == snapshot.len(),
                results@.map_values(|t: HitTestResult| t@) == hit_results_spec(snapshot, px, py, clk),
                self.mouse_state == old(self).mouse_state,
                self.parallel_threshold == old(self).parallel_threshold,
                forall|m: int|
                    0 <= m < i ==> views(self.containers@)[m] == #[trigger] commit_all(
                        snapshot,
                        px,
                        py,
                        clk,
                    )[m],
                forall|m: int|
                    i <= m < snapshot.len() ==> views(self.containers@)[m] == #[trigger] snapshot[m],
            decreases snapshot.len() - i,
        {
            let hov = results[i].is_hovered;
            let clkd = results[i].is_clicked;
            let cur_h = self.containers[i].hovered;
            let cur_c = self.containers[i].clicked;
            let mut c = self.containers[i].duplicate();
            c.prev_hovered = cur_h;
            c.hovered = hov;
            c.prev_clicked = cur_c;
            c.clicked = clkd;
            proof {
                assert(results@.map_values(|t: HitTestResult| t@)[i as int] == results@[i as int]@);
                assert(c@ == commit_view(
                    snapshot[i as int],
                    hit_result_spec(snapshot, px, py, clk, i as int),
                ));
                assert(views(self.containers@.update(i as int, c)) =~= views(
                    self.containers@,
                ).update(i as int, c@));
            }
            self.containers.set(i, c);
            i += 1;
        }
        proof {
            assert(views(self.containers@) =~= commit_all(snapshot, px, py, clk));
        }
        results
    }
}

/// The ids of the containers whose rectangle contains the pointer, in list
/// order; no passive or display gate is applied.
pub open spec fn hovered_ids(s: Seq<ContainerView>, px: int, py: int) -> Seq<Seq<char>>
    decreases s.len(),
{
    if s.len() == 0 {
        Seq::empty()
    } else {
        let front = hovered_ids(s.drop_last(), px, py);
        if container_contains(s.last(), px, py) {
            front.push(s.last().id)
        } else {
            front
        }
    }
}

/// The ids of the non-passive containers whose rectangle contains the
/// pointer, in list order.
pub open spec fn clicked_ids(s: Seq<ContainerView>, px: int, py: int) -> Seq<Seq<char>>
    decreases s.len(),
{
    if s.len() == 0 {
        Seq::empty()
    } else {
        let front = clicked_ids(s.drop_last(), px, py);
        if !s.last().passive && container_contains(s.last(), px, py) {
            front.push(s.last().id)
        } else {
            front
        }
    }
}

proof fn lemma_clk_unfold(s: Seq<ContainerView>, px: int, py: int)
    requires
        s.len() > 0,
    ensures
        (!s.last().passive && container_contains(s.last(), px, py)) ==> clicked_ids(s, px, py)
            == clicked_ids(s.drop_last(), px, py).push(s.last().id),
        !(!s.last().passive && container_contains(s.last(), px, py)) ==> clicked_ids(s, px, py)
            == clicked_ids(s.drop_last(), px, py),
{
}

proof fn lemma_hov_unfold(s: Seq<ContainerView>, px: int, py: int)
    requires
        s.len() > 0,
    ensures
        container_contains(s.last(), px, py) ==> hovered_ids(s, px, py) == hovered_ids(
            s.drop_last(),
            px,
            py,
        ).push(s.last().id),
        !container_contains(s.last(), px, py) ==> hovered_ids(s, px, py) == hovered_ids(
            s.drop_last(),
            px,
            py,
        ),
{
}

/// The ids of every container, in list order, whose rectangle contains the
/// pointer; a standalone scan over a plain container list, applying no
/// passive or display gate.
pub fn detect_hover_batch(containers: &Vec<Container>, mouse_x: i64, mouse_y: i64) -> (r: Vec<
    String,
>)
    ensures
        r@.map_values(|s: String| s@) == hovered_ids(
            views(containers@),
            mouse_x as int,
            mouse_y as int,
        ),
{
    let ghost px = mouse_x as int;
    let ghost py = mouse_y as int;
    let mut r: Vec<String> = Vec::new();
    let mut i: usize = 0;
    while i < containers.len()
        invariant
            i <= containers@.len(),
            px == mouse_x as int,
            py == mouse_y as int,
            r@.map_values(|s: String| s@) == hovered_ids(views(containers@.take(i as int)), px, py),
        decreases containers@.len() - i,
    {
        proof {
            let vt = views(containers@.take(i as int));
            let vt1 = views(containers@.take(i as int + 1));
            assert(vt1.len() == i + 1);
            assert(vt1.drop_last() =~= vt);
            assert(vt1.last() == containers@[i as int]@);
            lemma_hov_unfold(vt1, px, py);
        }
        let ghost prev_ids = r@;
        let cur = &containers[i];
        if cur.contains_point(mouse_x, mouse_y) {
            r.push(cur.id.clone());
            proof {
                let vt = views(containers@.take(i as int));
                let vt1 = views(containers@.take(i as int + 1));
                assert(hovered_ids(vt1, px, py) == hovered_ids(vt, px, py).push(
                    containers@[i as int]@.id,
                ));
                assert(r@ == prev_ids.push(r@.last()));
                assert(r@.last()@ == containers@[i as int]@.id);
                assert(r@.map_values(|s: String| s@) =~= hovered_ids(vt1, px, py));
            }
        } else {
            proof {
                let vt = views(containers@.take(i as int));
                let vt1 = views(containers@.take(i as int + 1));
                assert(hovered_ids(vt1, px, py) == hovered_ids(vt, px, py));
            }
        }
        i += 1;
    }
    proof {
        assert(containers@.take(containers@.len() as int) =~= containers@);
    }
    r
}

/// The ids of every non-passive container whose rectangle contains the
/// pointer, in list order — empty when the pointer is not clicked.
pub fn detect_clicks_batch(
    containers: &Vec<Container>,
    mouse_x: i64,
    mouse_y: i64,
    is_clicked: bool,
) -> (r: Vec<String>)
    ensures
        is_clicked ==> r@.map_values(|s: String| s@) == clicked_ids(
            views(containers@),
            mouse_x as int,
            mouse_y as int,
        ),
        !is_clicked ==> r@.len() == 0,
{
    let ghost px = mouse_x as int;
    let ghost py = mouse_y as int;
    let mut r: Vec<String> = Vec::new();
    if !is_clicked {
        return r;
    }
    let mut i: usize = 0;
    while i < containers.len()
        invariant
            i <= containers@.len(),
            px == mouse_x as int,
            py == mouse_y as int,
            r@.map_values(|s: String| s@) == clicked_ids(views(containers@.take(i as int)), px, py),
        decreases containers@.len() - i,
    {
        proof {
            let vt = views(containers@.take(i as int));
            let vt1 = views(containers@.take(i as int + 1));
            assert(vt1.len() == i + 1);
            assert(vt1.drop_last() =~= vt);
            assert(vt1.last() == containers@[i as int]@);
            lemma_clk_unfold(vt1, px, py);
        }
        let ghost prev_ids = r@;
        let cur = &containers[i];
        if !cur.passive && cur.contains_point(mouse_x, mouse_y) {
            r.push(cur.id.clone());
            proof {
                let vt = views(containers@.take(i as int));
                let vt1 = views(containers@.take(i as int + 1));
                assert(clicked_ids(vt1, px, py) == clicked_ids(vt, px, py).push(
                    containers@[i as int]@.id,
                ));
                assert(r@ == prev_ids.push(r@.last()));
                assert(r@.last()@ == containers@[i as int]@.id);
                assert(r@.map_values(|s: String| s@) =~= clicked_ids(vt1, px, py));
            }
        } else {
            proof {
                let vt = views(containers@.take(i as int));
                let vt1 = views(containers@.take(i as int + 1));
                assert(clicked_ids(vt1, px, py) == clicked_ids(vt, px, py));
            }
        }
        i += 1;
    }
    proof {
        assert(containers@.take(containers@.len() as int) =~= containers@);
    }
    r
}

/// The registry invariants survive a full hit-test pass: the write phase
/// commits hover/click flags, never hierarchy links.
pub proof fn lemma_detect_hits_preserves_wf(s: Seq<ContainerView>, px: int, py: int, clicked: bool)
    requires
        crate::flatten::registry_wf(s),
    ensures
        crate::flatten::registry_wf(commit_all(s, px, py, clicked)),
{
    assert(crate::flatten::same_structure(s, commit_all(s, px, py, clicked)));
    crate::flatten::lemma_registry_wf_same_structure(s, commit_all(s, px, py, clicked));
}

/// The parallel/serial threshold is a performance tunable, never a
/// correctness boundary: for the same container snapshot and pointer state,
/// the hit-test pass yields the same result list and the same committed
/// registry whatever the two detectors' thresholds are.
pub proof fn lemma_threshold_independent(d1: DetectorView, d2: DetectorView)
    requires
        d1.containers == d2.containers,
        d1.mouse_x == d2.mouse_x,
        d1.mouse_y == d2.mouse_y,
        d1.mouse_clicked == d2.mouse_clicked,
    ensures
        hit_results_spec(d1.containers, d1.mouse_x, d1.mouse_y, d1.mouse_clicked)
            == hit_results_spec(d2.containers, d2.mouse_x, d2.mouse_y, d2.mouse_clicked),
        commit_all(d1.containers, d1.mouse_x, d1.mouse_y, d1.mouse_clicked) == commit_all(
            d2.containers,
            d2.mouse_x,
            d2.mouse_y,
            d2.mouse_clicked,
        ),
{
}

} // verus!
