//! Watch-event classification scenarios: one per change category, the
//! per-category gates, and the component-path test.

use puree_core::ChangeType;
use puree_core::FsEventKind;
use puree_core::WatcherConfig;
use puree_core::classify_change;
use puree_core::is_component_path;

fn ext(s: &str) -> String {
    s.to_string()
}

/// Modified and created files classify by extension.
#[test]
fn classify_by_extension() {
    let c = WatcherConfig::default();
    assert_eq!(
        classify_change(Some(&ext("yaml")), FsEventKind::Modified, false, &c),
        Some(ChangeType::YamlModified)
    );
    assert_eq!(
        classify_change(Some(&ext("yml")), FsEventKind::Modified, false, &c),
        Some(ChangeType::YamlModified)
    );
    assert_eq!(
        classify_change(Some(&ext("scss")), FsEventKind::Created, false, &c),
        Some(ChangeType::StyleModified)
    );
    assert_eq!(
        classify_change(Some(&ext("css")), FsEventKind::Modified, false, &c),
        Some(ChangeType::StyleModified)
    );
    assert_eq!(
        classify_change(Some(&ext("py")), FsEventKind::Modified, false, &c),
        Some(ChangeType::ScriptModified)
    );
    assert_eq!(
        classify_change(Some(&ext("svg")), FsEventKind::Created, false, &c),
        Some(ChangeType::AssetModified)
    );
    assert_eq!(classify_change(Some(&ext("txt")), FsEventKind::Modified, false, &c), None);
}

/// A created yaml file under a components directory is a component
/// addition; a modified one is a plain yaml change.
#[test]
fn classify_component_added() {
    let c = WatcherConfig::default();
    assert_eq!(
        classify_change(Some(&ext("yaml")), FsEventKind::Created, true, &c),
        Some(ChangeType::ComponentAdded)
    );
    assert_eq!(
        classify_change(Some(&ext("yaml")), FsEventKind::Modified, true, &c),
        Some(ChangeType::YamlModified)
    );
}

/// A removal is reported only under a components directory, and never for
/// a file without an extension.
#[test]
fn classify_removal() {
    let c = WatcherConfig::default();
    assert_eq!(
        classify_change(Some(&ext("yaml")), FsEventKind::Removed, true, &c),
        Some(ChangeType::ComponentRemoved)
    );
    assert_eq!(classify_change(Some(&ext("yaml")), FsEventKind::Removed, false, &c), None);
    assert_eq!(classify_change(None, FsEventKind::Removed, true, &c), None);
    assert_eq!(classify_change(None, FsEventKind::Modified, false, &c), None);
}

/// Each watch flag gates its own category.
#[test]
fn classify_respects_gates() {
    let mut c = WatcherConfig::default();
    c.watch_yaml = false;
    c.watch_styles = false;
    c.watch_scripts = false;
    c.watch_assets = false;
    c.watch_components = false;
    assert_eq!(classify_change(Some(&ext("yaml")), FsEventKind::Modified, false, &c), None);
    assert_eq!(classify_change(Some(&ext("css")), FsEventKind::Modified, false, &c), None);
    assert_eq!(classify_change(Some(&ext("py")), FsEventKind::Modified, false, &c), None);
    assert_eq!(classify_change(Some(&ext("png")), FsEventKind::Created, false, &c), None);
    assert_eq!(classify_change(Some(&ext("yaml")), FsEventKind::Removed, true, &c), None);
}

/// Other event kinds (access, metadata) are never reported.
#[test]
fn classify_ignores_other_kinds() {
    let c = WatcherConfig::default();
    assert_eq!(classify_change(Some(&ext("yaml")), FsEventKind::Other, true, &c), None);
}

/// The default configuration watches everything with a 300 ms debounce.
#[test]
fn default_config() {
    let c = WatcherConfig::default();
    assert_eq!(c.debounce_ms, 300);
    assert!(c.watch_yaml && c.watch_styles && c.watch_scripts);
    assert!(c.watch_components && c.watch_assets);
}

/// A path is a component path when one of its segments is `components`.
#[test]
fn component_path_segments() {
    let inside = vec!["theme".to_string(), "components".to_string(), "button.yaml".to_string()];
    assert!(is_component_path(&inside));
    let outside = vec!["theme".to_string(), "styles".to_string(), "main.css".to_string()];
    assert!(!is_component_path(&outside));
    assert!(!is_component_path(&vec![]));
}
