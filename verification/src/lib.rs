//! Hierarchical spatial hit-testing for an interactive UI tree.
//!
//! A host supplies a nested tree of rectangular containers together with an
//! absolute layout map; the tree is flattened into a flat, indexed registry,
//! and per-frame pointer state is resolved into hover/click results that
//! respect parent/child occlusion and passive elements. Bulk mutation APIs
//! let the host translate containers and override interaction state in
//! batches that tolerate stale entries. Coordinates are plain fixed-point
//! integers in host-chosen units (for example thousandths of a pixel).

pub mod config;
pub mod container;
pub mod detector;
pub mod flatten;
pub mod processor;
pub mod space_mapper;
pub mod watcher;

pub use config::ConfigError;
pub use config::ConfigParseResult;
pub use config::ConfigParser;
pub use config::ConfigValue;
pub use config::SpaceValidationResult;
pub use config::ThemeConfigData;
pub use container::Container;
pub use container::HitResult;
pub use container::HitTestResult;
pub use container::MouseState;
pub use detector::HitDetector;
pub use detector::detect_clicks_batch;
pub use detector::detect_hover_batch;
pub use flatten::LayoutMap;
pub use flatten::LayoutRect;
pub use flatten::Node;
pub use processor::ContainerProcessor;
pub use space_mapper::SpaceMapper;
pub use watcher::ChangeType;
pub use watcher::FsEventKind;
pub use watcher::WatcherConfig;
pub use watcher::classify_change;
pub use watcher::is_component_path;
