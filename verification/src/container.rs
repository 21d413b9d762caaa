//! The container data model: one record per rectangular interactive element,
//! plus the pointer state and the per-frame hit-test result record.
//!
//! Coordinates are fixed-point integers in units chosen by the host (for
//! example thousandths of a pixel); the logic only compares and offsets them.

use vstd::prelude::*;

verus! {

/// Mathematical model of a [`Container`]: every field as a plain
/// mathematical value. All contracts in this crate speak of this view.
pub ghost struct ContainerView {
    pub id: Seq<char>,
    pub style_id: Seq<char>,
    pub x: int,
    pub y: int,
    pub width: int,
    pub height: int,
    pub parent: int,
    pub children: Seq<int>,
    pub passive: bool,
    pub display: bool,
    pub overflow: bool,
    pub text: Seq<char>,
    pub font: Seq<char>,
    pub img: Seq<char>,
    pub aspect_ratio: bool,
    pub data: Seq<char>,
    pub payload: u64,
    pub scroll_value: int,
    pub hovered: bool,
    pub prev_hovered: bool,
    pub clicked: bool,
    pub prev_clicked: bool,
    pub toggled: bool,
    pub prev_toggled: bool,
    pub toggle_value: bool,
}

/// One rectangular interactive element of the flattened tree.
pub struct Container {
    /// unique across the whole flattened tree
    pub id: String,
    /// opaque reference to externally resolved style data
    pub style_id: String,
    /// absolute top-left corner, layout space
    pub position: [i64; 2],
    /// width and height; non-negative for every container a flatten emits
    pub size: [i64; 2],
    /// index of the parent container, or -1 for the root
    pub parent: i32,
    /// indices of the direct children, in source order
    pub children: Vec<usize>,
    /// excluded from all hit testing when set (can still render)
    pub passive: bool,
    /// visibility gate: a hidden container cannot be hovered or clicked
    pub display: bool,
    /// whether child content may extend past the bounds; carried through,
    /// not used to clip hit testing
    pub overflow: bool,
    pub text: String,
    pub font: String,
    pub img: String,
    pub aspect_ratio: bool,
    pub data: String,
    /// opaque handle to the host-resolved visual attributes (colors,
    /// shadows, gradients, handler tokens); stored and returned unchanged,
    /// never read by the hit-testing logic
    pub payload: u64,
    pub scroll_value: i64,
    pub hovered: bool,
    pub prev_hovered: bool,
    pub clicked: bool,
    pub prev_clicked: bool,
    pub toggled: bool,
    pub prev_toggled: bool,
    pub toggle_value: bool,
}

impl View for Container {
    type V = ContainerView;

    open spec fn view(&self) -> ContainerView {
        ContainerView {
            id: self.id@,
            style_id: self.style_id@,
            x: self.position@[0] as int,
            y: self.position@[1] as int,
            width: self.size@[0] as int,
            height: self.size@[1] as int,
            parent: self.parent as int,
            children: self.children@.map_values(|c: usize| c as int),
            passive: self.passive,
            display: self.display,
            overflow: self.overflow,
            text: self.text@,
            font: self.font@,
            img: self.img@,
            aspect_ratio: self.aspect_ratio,
            data: self.data@,
            payload: self.payload,
            scroll_value: self.scroll_value as int,
            hovered: self.hovered,
            prev_hovered: self.prev_hovered,
            clicked: self.clicked,
            prev_clicked: self.prev_clicked,
            toggled: self.toggled,
            prev_toggled: self.prev_toggled,
            toggle_value: self.toggle_value,
        }
    }
}

/// The point (px, py) lies within the closed rectangle whose top-left corner
/// is (x, y) and whose extent is (w, h); both edges are inclusive.
pub open spec fn point_in_rect(x: int, y: int, w: int, h: int, px: int, py: int) -> bool {
    px >= x && px <= x + w && py >= y && py <= y + h
}

/// The pointer position lies within the container's rectangle.
pub open spec fn container_contains(c: ContainerView, px: int, py: int) -> bool {
    point_in_rect(c.x, c.y, c.width, c.height, px, py)
}

impl Container {
    /// Whether the point (x, y) lies within this container's rectangle,
    /// inclusive on both edges.
    pub fn contains_point(&self, x: i64, y: i64) -> (r: bool)
        ensures
            r == container_contains(self@, x as int, y as int),
    {
        let px = x as i128;
        let py = y as i128;
        let cx = self.position[0] as i128;
        let cy = self.position[1] as i128;
        let cw = self.size[0] as i128;
        let ch = self.size[1] as i128;
        px >= cx && px <= cx + cw && py >= cy && py <= cy + ch
    }

    /// Shift the current hover flag into the previous slot, then record the
    /// newly computed one.
    pub fn update_hover_state(&mut self, is_hovered: bool)
        ensures
            final(self)@ == (ContainerView {
                hovered: is_hovered,
                prev_hovered: old(self)@.hovered,
                ..old(self)@
            }),
    {
        self.prev_hovered = self.hovered;
        self.hovered = is_hovered;
    }

    /// Shift the current click flag into the previous slot, then record the
    /// newly computed one.
    pub fn update_click_state(&mut self, is_clicked: bool)
        ensures
            final(self)@ == (ContainerView {
                clicked: is_clicked,
                prev_clicked: old(self)@.clicked,
                ..old(self)@
            }),
    {
        self.prev_clicked = self.clicked;
        self.clicked = is_clicked;
    }

    /// An exact copy of this container record.
    pub fn duplicate(&self) -> (r: Container)
        ensures
            r@ == self@,
    {
        let children = self.children.clone();
        proof {
            assert(children@ =~= self.children@);
        }
        Container {
            id: self.id.clone(),
            style_id: self.style_id.clone(),
            position: [self.position[0], self.position[1]],
            size: [self.size[0], self.size[1]],
            parent: self.parent,
            children,
            passive: self.passive,
            display: self.display,
            overflow: self.overflow,
            text: self.text.clone(),
            font: self.font.clone(),
            img: self.img.clone(),
            aspect_ratio: self.aspect_ratio,
            data: self.data.clone(),
            payload: self.payload,
            scroll_value: self.scroll_value,
            hovered: self.hovered,
            prev_hovered: self.prev_hovered,
            clicked: self.clicked,
            prev_clicked: self.prev_clicked,
            toggled: self.toggled,
            prev_toggled: self.prev_toggled,
            toggle_value: self.toggle_value,
        }
    }
}

/// The pointer state the host sets before each hit-test pass.
#[derive(Clone, Copy)]
pub struct MouseState {
    pub x: i64,
    pub y: i64,
    pub clicked: bool,
    pub scroll_delta: i64,
}

/// Mathematical model of a [`HitTestResult`].
pub ghost struct HitTestResultView {
    pub container_id: Seq<char>,
    pub is_hovered: bool,
    pub is_clicked: bool,
    pub hover_changed: bool,
    pub click_changed: bool,
    pub has_children_hit: bool,
}

/// One per-container outcome of a hit-test pass, index-aligned with the
/// container list it was computed from.
pub struct HitTestResult {
    pub container_id: String,
    pub is_hovered: bool,
    pub is_clicked: bool,
    pub hover_changed: bool,
    pub click_changed: bool,
    pub has_children_hit: bool,
}

impl View for HitTestResult {
    type V = HitTestResultView;

    open spec fn view(&self) -> HitTestResultView {
        HitTestResultView {
            container_id: self.container_id@,
            is_hovered: self.is_hovered,
            is_clicked: self.is_clicked,
            hover_changed: self.hover_changed,
            click_changed: self.click_changed,
            has_children_hit: self.has_children_hit,
        }
    }
}

/// A reduced hover/click outcome for hosts that only need those two flags.
pub struct HitResult {
    pub container_id: String,
    pub is_hovered: bool,
    pub is_clicked: bool,
}

} // verus!
