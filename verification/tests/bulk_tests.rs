//! Bulk mutation scenarios: positional offsets with silent out-of-range
//! skips, and state overrides with channel sequences shorter than the id
//! list.

use puree_core::Container;
use puree_core::ContainerProcessor;
use puree_core::LayoutMap;
use puree_core::LayoutRect;
use puree_core::Node;

fn leaf(id: &str) -> Node {
    Node {
        id: id.to_string(),
        style_id: String::new(),
        display: true,
        overflow: true,
        passive: false,
        aspect_ratio: false,
        text: String::new(),
        font: String::new(),
        img: String::new(),
        data: String::new(),
        payload: 0,
        scroll_value: 0,
        children: vec![],
    }
}

/// A registry of ten containers named c0..c9, each at (10*i, 20*i).
fn ten_containers() -> ContainerProcessor {
    let children: Vec<Node> = (1..10).map(|i| leaf(&format!("c{}", i))).collect();
    let mut root = leaf("c0");
    root.children = children;
    let entries: Vec<LayoutRect> = (0..10)
        .map(|i| LayoutRect {
            id: format!("c{}", i),
            x: 10 * i,
            y: 20 * i,
            width: 5,
            height: 5,
        })
        .collect();
    let mut processor = ContainerProcessor::new();
    processor.flatten_tree(&root, &LayoutMap { entries });
    processor
}

/// Shifting container 2 by (+5, -3) moves only container 2.
#[test]
fn positions_bulk_shifts_one_container() {
    let mut processor = ten_containers();
    let before: Vec<Container> = processor.get_containers();
    processor.update_positions_bulk(&vec![2], &vec![5], &vec![-3]);
    let after = processor.get_containers();
    assert_eq!(after[2].position, [25, 37]);
    for i in 0..10 {
        if i != 2 {
            assert_eq!(after[i].position, before[i].position);
        }
        assert_eq!(after[i].size, before[i].size);
        assert_eq!(after[i].id, before[i].id);
    }
}

/// An out-of-range index is a silent no-op for the whole registry.
#[test]
fn positions_bulk_ignores_out_of_range_index() {
    let mut processor = ten_containers();
    let before = processor.get_containers();
    processor.update_positions_bulk(&vec![99999], &vec![1], &vec![1]);
    let after = processor.get_containers();
    for i in 0..10 {
        assert_eq!(after[i].position, before[i].position);
    }
}

/// Entries are applied in order, so repeated indices accumulate.
#[test]
fn positions_bulk_applies_in_order() {
    let mut processor = ten_containers();
    processor.update_positions_bulk(&vec![1, 1, 3], &vec![2, 3, -1], &vec![0, 1, 1]);
    let after = processor.get_containers();
    assert_eq!(after[1].position, [15, 21]);
    assert_eq!(after[3].position, [29, 61]);
}

/// Offsets saturate at the ends of the coordinate range instead of
/// wrapping.
#[test]
fn positions_bulk_saturates() {
    let mut processor = ten_containers();
    processor.update_positions_bulk(&vec![0], &vec![i64::MAX], &vec![i64::MIN]);
    let after = processor.get_containers();
    assert_eq!(after[0].position, [i64::MAX, i64::MIN]);
}

/// With ids ["c1","c2"], a one-entry hovered sequence and an empty clicked
/// sequence: c1 gets hovered=true with its click channel kept, and c2 keeps
/// both channels (only its previous slots shift).
#[test]
fn states_bulk_short_channels() {
    let mut processor = ten_containers();
    processor.update_states_bulk(
        &vec!["c1".to_string(), "c2".to_string()],
        &vec![true],
        &vec![],
    );
    let after = processor.get_containers();
    assert!(after[1].hovered);
    assert!(!after[1].clicked);
    assert!(!after[1].prev_hovered);
    assert!(!after[1].prev_clicked);
    assert!(!after[2].hovered);
    assert!(!after[2].clicked);
}

/// The current flags shift into the previous slots before the overwrite.
#[test]
fn states_bulk_shifts_previous() {
    let mut processor = ten_containers();
    processor.update_states_bulk(&vec!["c4".to_string()], &vec![true], &vec![true]);
    processor.update_states_bulk(&vec!["c4".to_string()], &vec![false], &vec![]);
    let after = processor.get_containers();
    assert!(!after[4].hovered);
    assert!(after[4].prev_hovered);
    assert!(after[4].clicked);
    assert!(after[4].prev_clicked);
}

/// Bulk mutations touch only their own channels: a position batch keeps
/// the interaction flags, and a state batch keeps geometry and the toggle
/// flags.
#[test]
fn bulk_updates_leave_other_fields_alone() {
    let mut processor = ten_containers();
    processor.update_states_bulk(&vec!["c5".to_string()], &vec![true], &vec![true]);
    processor.update_positions_bulk(&vec![5], &vec![7], &vec![7]);
    let after = processor.get_containers();
    assert!(after[5].hovered);
    assert!(after[5].clicked);
    assert_eq!(after[5].position, [57, 107]);
    assert_eq!(after[5].size, [5, 5]);
    assert_eq!(after[5].parent, 0);
    assert!(!after[5].toggled && !after[5].prev_toggled && !after[5].toggle_value);
}

/// An unknown id is silently ignored; known ids in the same batch still
/// apply.
#[test]
fn states_bulk_ignores_unknown_id() {
    let mut processor = ten_containers();
    processor.update_states_bulk(
        &vec!["nobody".to_string(), "c3".to_string()],
        &vec![true, true],
        &vec![false, true],
    );
    let after = processor.get_containers();
    assert!(after[3].hovered);
    assert!(after[3].clicked);
    for i in 0..10 {
        if i != 3 {
            assert!(!after[i].hovered);
            assert!(!after[i].clicked);
        }
    }
}
