//! Flattening scenarios: depth-first index assignment, the parent/children
//! invariants, determinism, and the missing-layout-entry skip policy.

use puree_core::Container;
use puree_core::ContainerProcessor;
use puree_core::LayoutMap;
use puree_core::LayoutRect;
use puree_core::Node;

fn node(id: &str, children: Vec<Node>) -> Node {
    Node {
        id: id.to_string(),
        style_id: format!("style_{}", id),
        display: true,
        overflow: true,
        passive: false,
        aspect_ratio: false,
        text: String::new(),
        font: String::new(),
        img: String::new(),
        data: String::new(),
        payload: 7,
        scroll_value: 0,
        children,
    }
}

fn rect(id: &str, x: i64, y: i64, w: i64, h: i64) -> LayoutRect {
    LayoutRect { id: id.to_string(), x, y, width: w, height: h }
}

fn sample_tree() -> Node {
    node(
        "root",
        vec![
            node("a", vec![node("a1", vec![]), node("a2", vec![])]),
            node("b", vec![node("b1", vec![])]),
        ],
    )
}

fn sample_layout() -> LayoutMap {
    LayoutMap {
        entries: vec![
            rect("root", 0, 0, 1000, 1000),
            rect("a", 0, 0, 500, 500),
            rect("a1", 0, 0, 100, 100),
            rect("a2", 100, 0, 100, 100),
            rect("b", 500, 0, 500, 500),
            rect("b1", 500, 0, 100, 100),
        ],
    }
}

/// Indices follow the depth-first, children-in-source-order traversal.
#[test]
fn depth_first_order() {
    let mut processor = ContainerProcessor::new();
    let out = processor.flatten_tree(&sample_tree(), &sample_layout());
    let ids: Vec<&str> = out.iter().map(|c| c.id.as_str()).collect();
    assert_eq!(ids, vec!["root", "a", "a1", "a2", "b", "b1"]);
}

fn assert_registry_invariants(out: &[Container]) {
    for (i, c) in out.iter().enumerate() {
        if i == 0 {
            assert_eq!(c.parent, -1);
        } else {
            assert!(c.parent >= 0);
            assert!((c.parent as usize) < i);
        }
        for &child in &c.children {
            assert!(child > i);
            assert!(child < out.len());
            assert_eq!(out[child].parent, i as i32);
        }
    }
}

/// Every non-root container's parent index precedes its own, and every
/// children entry is in range with the child's parent pointing back.
#[test]
fn parent_and_children_links() {
    let mut processor = ContainerProcessor::new();
    let out = processor.flatten_tree(&sample_tree(), &sample_layout());
    assert_eq!(out.len(), 6);
    assert_registry_invariants(&out);
    assert_eq!(out[0].children, vec![1, 4]);
    assert_eq!(out[1].children, vec![2, 3]);
    assert_eq!(out[4].children, vec![5]);
}

/// Flattening the same input twice yields identical registry contents.
#[test]
fn flatten_is_deterministic() {
    let mut p1 = ContainerProcessor::new();
    let out1 = p1.flatten_tree(&sample_tree(), &sample_layout());
    let mut p2 = ContainerProcessor::new();
    let out2 = p2.flatten_tree(&sample_tree(), &sample_layout());
    assert_eq!(out1.len(), out2.len());
    for (c1, c2) in out1.iter().zip(out2.iter()) {
        assert_eq!(c1.id, c2.id);
        assert_eq!(c1.style_id, c2.style_id);
        assert_eq!(c1.position, c2.position);
        assert_eq!(c1.size, c2.size);
        assert_eq!(c1.parent, c2.parent);
        assert_eq!(c1.children, c2.children);
        assert_eq!(c1.payload, c2.payload);
    }
}

/// A node absent from the layout map is skipped with its whole subtree,
/// and the emitted indices stay consistent.
#[test]
fn missing_layout_entry_skips_subtree() {
    let layout = LayoutMap {
        entries: vec![
            rect("root", 0, 0, 1000, 1000),
            rect("a1", 0, 0, 100, 100),
            rect("a2", 100, 0, 100, 100),
            rect("b", 500, 0, 500, 500),
            rect("b1", 500, 0, 100, 100),
        ],
    };
    let mut processor = ContainerProcessor::new();
    let out = processor.flatten_tree(&sample_tree(), &layout);
    let ids: Vec<&str> = out.iter().map(|c| c.id.as_str()).collect();
    assert_eq!(ids, vec!["root", "b", "b1"]);
    assert_registry_invariants(&out);
    assert_eq!(out[0].children, vec![1]);
}

/// Geometry and payload come through: position/size from the layout map,
/// the rest from the node, and the interaction flags start cleared.
#[test]
fn emitted_record_fields() {
    let mut processor = ContainerProcessor::new();
    let out = processor.flatten_tree(&sample_tree(), &sample_layout());
    let a2 = &out[3];
    assert_eq!(a2.id, "a2");
    assert_eq!(a2.style_id, "style_a2");
    assert_eq!(a2.position, [100, 0]);
    assert_eq!(a2.size, [100, 100]);
    assert_eq!(a2.parent, 1);
    assert_eq!(a2.payload, 7);
    assert!(!a2.hovered && !a2.prev_hovered);
    assert!(!a2.clicked && !a2.prev_clicked);
    assert!(!a2.toggled && !a2.prev_toggled && !a2.toggle_value);
}

/// With duplicate ids in the layout listing, the first entry wins.
#[test]
fn layout_lookup_takes_first_match() {
    let layout = LayoutMap {
        entries: vec![rect("solo", 1, 2, 3, 4), rect("solo", 9, 9, 9, 9)],
    };
    let mut processor = ContainerProcessor::new();
    let out = processor.flatten_tree(&node("solo", vec![]), &layout);
    assert_eq!(out[0].position, [1, 2]);
    assert_eq!(out[0].size, [3, 4]);
}

/// The scroll value crosses the flatten unchanged.
#[test]
fn scroll_value_passes_through() {
    let mut n = node("solo", vec![]);
    n.scroll_value = 4500;
    let layout = LayoutMap { entries: vec![rect("solo", 0, 0, 1, 1)] };
    let mut processor = ContainerProcessor::new();
    let out = processor.flatten_tree(&n, &layout);
    assert_eq!(out[0].scroll_value, 4500);
}

/// A rebuild fully clears the previous registry.
#[test]
fn rebuild_replaces_registry() {
    let mut processor = ContainerProcessor::new();
    processor.flatten_tree(&sample_tree(), &sample_layout());
    let small = node("solo", vec![]);
    let layout = LayoutMap { entries: vec![rect("solo", 1, 2, 3, 4)] };
    let out = processor.flatten_tree(&small, &layout);
    assert_eq!(out.len(), 1);
    assert_eq!(processor.get_containers().len(), 1);
    assert_eq!(out[0].id, "solo");
    assert_eq!(out[0].parent, -1);
}
