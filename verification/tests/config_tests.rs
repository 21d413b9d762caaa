//! Configuration interpretation scenarios: theme extraction with defaults,
//! the two rejection cases, and space validation against the supported
//! table.

use puree_core::ConfigError;
use puree_core::ConfigParser;
use puree_core::ConfigValue;
use puree_core::SpaceMapper;

fn text(s: &str) -> ConfigValue {
    ConfigValue::Text(s.to_string())
}

fn dict(entries: Vec<(&str, ConfigValue)>) -> ConfigValue {
    ConfigValue::Dict(entries.into_iter().map(|(k, v)| (k.to_string(), v)).collect())
}

/// A full document: explicit theme selection and one fully specified theme.
#[test]
fn parse_full_document() {
    let theme = dict(vec![
        ("name", text("dark")),
        ("author", text("xwz")),
        ("version", text("2.1.0")),
        ("space", text("VIEW_3D")),
        ("default_font", text("Inter")),
        ("scripts", ConfigValue::List(vec![text("init.py"), text("hud.py")])),
        ("styles", ConfigValue::List(vec![text("main.css")])),
        ("components", text("widgets/")),
    ]);
    let doc = dict(vec![(
        "app",
        dict(vec![
            ("selected_theme", text("dark")),
            ("default_theme", text("light")),
            ("theme", ConfigValue::List(vec![theme])),
        ]),
    )]);
    let parser = ConfigParser::new();
    let result = parser.parse_config(&doc).unwrap();
    assert_eq!(result.selected_theme, "dark");
    assert_eq!(result.default_theme, "light");
    assert_eq!(result.themes.len(), 1);
    let t = &result.themes[0];
    assert_eq!(t.name, "dark");
    assert_eq!(t.author, "xwz");
    assert_eq!(t.version, "2.1.0");
    assert_eq!(t.space.as_deref(), Some("VIEW_3D"));
    assert_eq!(t.default_font, "Inter");
    assert_eq!(t.scripts, vec!["init.py".to_string(), "hud.py".to_string()]);
    assert_eq!(t.styles, vec!["main.css".to_string()]);
    assert_eq!(t.components, "widgets/");
}

/// Every absent field falls back to its documented default.
#[test]
fn parse_applies_defaults() {
    let doc = dict(vec![(
        "app",
        dict(vec![("theme", ConfigValue::List(vec![dict(vec![])]))]),
    )]);
    let parser = ConfigParser::new();
    let result = parser.parse_config(&doc).unwrap();
    assert_eq!(result.selected_theme, "xwz_default");
    assert_eq!(result.default_theme, "xwz_default");
    let t = &result.themes[0];
    assert_eq!(t.name, "unnamed");
    assert_eq!(t.author, "unknown");
    assert_eq!(t.version, "1.0.0");
    assert_eq!(t.space, None);
    assert_eq!(t.default_font, "NeueMontreal-Regular");
    assert!(t.scripts.is_empty());
    assert!(t.styles.is_empty());
    assert_eq!(t.components, "components/");
}

/// A field of the wrong shape counts as absent: non-text names default and
/// non-text list items are dropped.
#[test]
fn parse_skips_wrong_shapes() {
    let theme = dict(vec![
        ("name", ConfigValue::Number(3)),
        ("scripts", ConfigValue::List(vec![text("keep.py"), ConfigValue::Null, ConfigValue::Flag(true)])),
        ("styles", text("not-a-list")),
    ]);
    let doc = dict(vec![(
        "app",
        dict(vec![("theme", ConfigValue::List(vec![theme]))]),
    )]);
    let parser = ConfigParser::new();
    let result = parser.parse_config(&doc).unwrap();
    let t = &result.themes[0];
    assert_eq!(t.name, "unnamed");
    assert_eq!(t.scripts, vec!["keep.py".to_string()]);
    assert!(t.styles.is_empty());
}

/// A document without an `app` entry is rejected.
#[test]
fn parse_rejects_missing_app() {
    let parser = ConfigParser::new();
    let doc = dict(vec![("other", text("x"))]);
    assert_eq!(parser.parse_config(&doc).unwrap_err(), ConfigError::MissingAppKey);
    let not_a_dict = text("just a string");
    assert_eq!(parser.parse_config(&not_a_dict).unwrap_err(), ConfigError::MissingAppKey);
}

/// An `app` entry whose `theme` is absent or not a list is rejected.
#[test]
fn parse_rejects_missing_theme_array() {
    let parser = ConfigParser::new();
    let no_theme = dict(vec![("app", dict(vec![("selected_theme", text("x"))]))]);
    assert_eq!(parser.parse_config(&no_theme).unwrap_err(), ConfigError::MissingThemeArray);
    let wrong_shape = dict(vec![("app", dict(vec![("theme", text("dark"))]))]);
    assert_eq!(parser.parse_config(&wrong_shape).unwrap_err(), ConfigError::MissingThemeArray);
}

/// A declared space is validated against the supported table.
#[test]
fn validate_space_known_and_unknown() {
    let parser = ConfigParser::new();
    let ok = parser.validate_space(Some("NODE_EDITOR"));
    assert!(ok.is_valid);
    assert_eq!(ok.area_type.as_deref(), Some("NODE_EDITOR"));
    assert_eq!(ok.handler_name.as_deref(), Some("SpaceNodeEditor"));
    assert_eq!(ok.error_message, None);

    let bad = parser.validate_space(Some("HOLODECK"));
    assert!(!bad.is_valid);
    assert_eq!(bad.area_type.as_deref(), Some("HOLODECK"));
    assert_eq!(bad.handler_name, None);
    assert_eq!(bad.error_message.as_deref(), Some("Invalid space type: 'HOLODECK'"));
}

/// No declared space falls back to the default editor space.
#[test]
fn validate_space_default() {
    let parser = ConfigParser::new();
    let r = parser.validate_space(None);
    assert!(r.is_valid);
    assert_eq!(r.area_type.as_deref(), Some("VIEW_3D"));
    assert_eq!(r.handler_name.as_deref(), Some("SpaceView3D"));
    assert_eq!(r.error_message, None);
}

/// The space table maps the documented area types and rejects others.
#[test]
fn space_mapper_lookup() {
    let mapper = SpaceMapper::new();
    assert_eq!(mapper.get_handler_name("VIEW_3D"), Some("SpaceView3D"));
    assert_eq!(mapper.get_handler_name("PREFERENCES"), Some("SpacePreferences"));
    assert_eq!(mapper.get_handler_name("NLA_EDITOR"), Some("SpaceNLA"));
    assert_eq!(mapper.get_handler_name("KITCHEN"), None);
    assert!(mapper.is_valid_area_type("CONSOLE"));
    assert!(!mapper.is_valid_area_type("console"));
}

/// The supported-space listing covers the whole table, in table order.
#[test]
fn space_mapper_supported_spaces() {
    let mapper = SpaceMapper::new();
    let spaces = mapper.get_supported_spaces();
    assert_eq!(spaces.len(), 18);
    assert_eq!(spaces[0], "VIEW_3D");
    assert_eq!(spaces[17], "PREFERENCES");
    let parser = ConfigParser::new();
    let owned = parser.get_supported_spaces();
    assert_eq!(owned.len(), 18);
    assert!(owned.iter().all(|s| mapper.is_valid_area_type(s)));
}
