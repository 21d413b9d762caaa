//! Classification of filesystem change events: the decision rules the
//! host's watch loop applies to each debounced event. The watch loop itself
//! (filesystem notification, channels, debouncing clocks) runs host-side and
//! hands in plain values: the file's extension, the event kind, and whether
//! the path lies under a components directory.

use vstd::prelude::*;

verus! {

/// The type of file change a watch event was classified as.
#[derive(Debug, Clone, PartialEq, Eq, Structural)]
pub enum ChangeType {
    YamlModified,
    StyleModified,
    ScriptModified,
    ComponentAdded,
    ComponentRemoved,
    AssetModified,
}

/// The kind of filesystem event, as the host's notifier reports it.
#[derive(Debug, Clone, Copy, PartialEq, Eq, Structural)]
pub enum FsEventKind {
    Created,
    Modified,
    Removed,
    Other,
}

/// Which change categories a watcher reports, and its debounce window.
#[derive(Debug, Clone, PartialEq, Eq, Structural)]
pub struct WatcherConfig {
    pub debounce_ms: u64,
    pub watch_yaml: bool,
    pub watch_styles: bool,
    pub watch_scripts: bool,
    pub watch_components: bool,
    pub watch_assets: bool,
}

impl Default for WatcherConfig {
    /// A 300 ms debounce window with every category watched.
    fn default() -> (r: Self)
        ensures
            r == (WatcherConfig {
                debounce_ms: 300u64,
                watch_yaml: true,
                watch_styles: true,
                watch_scripts: true,
                watch_components: true,
                watch_assets: true,
            }),
    {
        WatcherConfig {
            debounce_ms: 300,
            watch_yaml: true,
            watch_styles: true,
            watch_scripts: true,
            watch_components: true,
            watch_assets: true,
        }
    }
}

/// How one event is classified: a file without an extension is never
/// reported; a created or modified file is classified by its extension,
/// gated on the matching watch flag, with a created yaml file under a
/// components directory reported as a component addition; a removal is
/// reported only for paths under a components directory.
pub open spec fn classify_spec(
    ext: Option<Seq<char>>,
    kind: FsEventKind,
    in_components: bool,
    c: WatcherConfig,
) -> Option<ChangeType> {
    match ext {
        None => None,
        Some(e) => match kind {
            FsEventKind::Created | FsEventKind::Modified => {
                if (e == "yaml"@ || e == "yml"@) && c.watch_yaml {
                    if in_components && kind == FsEventKind::Created {
                        Some(ChangeType::ComponentAdded)
                    } else {
                        Some(ChangeType::YamlModified)
                    }
                } else if (e == "css"@ || e == "scss"@) && c.watch_styles {
                    Some(ChangeType::StyleModified)
                } else if e == "py"@ && c.watch_scripts {
                    Some(ChangeType::ScriptModified)
                } else if (e == "png"@ || e == "jpg"@ || e == "jpeg"@ || e == "svg"@)
                    && c.watch_assets {
                    Some(ChangeType::AssetModified)
                } else {
                    None
                }
            },
            FsEventKind::Removed => {
                if c.watch_components && in_components {
                    Some(ChangeType::ComponentRemoved)
                } else {
                    None
                }
            },
            FsEventKind::Other => None,
        },
    }
}

/// Classify one debounced filesystem event; see [`classify_spec`] for the
/// exact rules.
pub fn classify_change(
    extension: Option<&String>,
    kind: FsEventKind,
    in_components: bool,
    config: &WatcherConfig,
) -> (r: Option<ChangeType>)
    ensures
        r == classify_spec(
            match extension {
                Some(e) => Some(e@),
                None => None,
            },
            kind,
            in_components,
            *config,
        ),
{
    let e: &String = match extension {
        Some(e) => e,
        None => {
            return None;
        },
    };
    match kind {
        FsEventKind::Created | FsEventKind::Modified => {
            if (*e == "yaml".to_owned() || *e == "yml".to_owned()) && config.watch_yaml {
                if in_components && kind == FsEventKind::Created {
                    Some(ChangeType::ComponentAdded)
                } else {
                    Some(ChangeType::YamlModified)
                }
            } else if (*e == "css".to_owned() || *e == "scss".to_owned()) && config.watch_styles {
                Some(ChangeType::StyleModified)
            } else if *e == "py".to_owned() && config.watch_scripts {
                Some(ChangeType::ScriptModified)
            } else if (*e == "png".to_owned() || *e == "jpg".to_owned() || *e == "jpeg".to_owned()
                || *e == "svg".to_owned()) && config.watch_assets {
                Some(ChangeType::AssetModified)
            } else {
                None
            }
        },
        FsEventKind::Removed => {
            if config.watch_components && in_components {
                Some(ChangeType::ComponentRemoved)
            } else {
                None
            }
        },
        FsEventKind::Other => None,
    }
}

/// Whether any component of the path (handed in as plain name segments) is
/// a `components` directory.
pub fn is_component_path(segments: &Vec<String>) -> (r: bool)
    ensures
        r == exists|i: int|
            0 <= i < segments@.len() && (#[trigger] segments@[i])@ == "components"@,
{
    let key: String = "components".to_owned();
    let mut i: usize = 0;
    while i < segments.len()
        invariant
            i <= segments@.len(),
            key@ == "components"@,
            forall|m: int| 0 <= m < i ==> (#[trigger] segments@[m])@ != "components"@,
        decreases segments@.len() - i,
    {
        if segments[i] == key {
            return true;
        }
        i += 1;
    }
    false
}

} // verus!
