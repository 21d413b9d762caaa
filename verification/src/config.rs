//! Theme configuration interpretation: extracting the selected theme and the
//! per-theme records, with their documented defaults, from an
//! already-parsed configuration value, plus validation of a theme's declared
//! editor space against the supported table.
//!
//! The host parses its YAML text upstream and hands the result over as a
//! [`ConfigValue`], a plain tree of scalars, lists and keyed entries.

use vstd::prelude::*;
use crate::space_mapper::SpaceMapper;
use crate::space_mapper::space_lookup;

verus! {

/// An already-parsed configuration value: a plain tree the host converts
/// its YAML document into.
pub enum ConfigValue {
    Null,
    Flag(bool),
    Number(i64),
    Text(String),
    List(Vec<ConfigValue>),
    Dict(Vec<(String, ConfigValue)>),
}

/// Why a configuration rebuild was rejected; the previous configuration
/// stays valid.
#[derive(Debug, PartialEq, Eq, Structural, Clone, Copy)]
pub enum ConfigError {
    /// the document has no `app` entry (or is not keyed at all)
    MissingAppKey,
    /// `app` has no `theme` entry, or its value is not a list
    MissingThemeArray,
}

/// The entries of a keyed value; `None` for every other shape of value.
pub open spec fn dict_entries(v: ConfigValue) -> Option<Seq<(String, ConfigValue)>> {
    match v {
        ConfigValue::Dict(d) => Some(d@),
        _ => None,
    }
}

/// The value under the first entry with this key, if any.
pub open spec fn dict_lookup(d: Seq<(String, ConfigValue)>, key: Seq<char>) -> Option<ConfigValue>
    decreases d.len(),
{
    if d.len() == 0 {
        None
    } else if d[0].0@ == key {
        Some(d[0].1)
    } else {
        dict_lookup(d.drop_first(), key)
    }
}

/// The characters of a text value; `None` for every other shape.
pub open spec fn as_text(v: ConfigValue) -> Option<Seq<char>> {
    match v {
        ConfigValue::Text(s) => Some(s@),
        _ => None,
    }
}

/// The items of a list value; `None` for every other shape.
pub open spec fn as_list(v: ConfigValue) -> Option<Seq<ConfigValue>> {
    match v {
        ConfigValue::List(l) => Some(l@),
        _ => None,
    }
}

/// The text under this key, or the default when the key is absent or its
/// value is not text.
pub open spec fn text_or(d: Seq<(String, ConfigValue)>, key: Seq<char>, dflt: Seq<char>) -> Seq<
    char,
> {
    match dict_lookup(d, key) {
        Some(v) => match as_text(v) {
            Some(s) => s,
            None => dflt,
        },
        None => dflt,
    }
}

/// The text under this key, or `None` when the key is absent or its value
/// is not text.
pub open spec fn text_opt(d: Seq<(String, ConfigValue)>, key: Seq<char>) -> Option<Seq<char>> {
    match dict_lookup(d, key) {
        Some(v) => as_text(v),
        None => None,
    }
}

/// The text items of a list, in order; items of any other shape are
/// silently dropped.
pub open spec fn text_items(l: Seq<ConfigValue>) -> Seq<Seq<char>>
    decreases l.len(),
{
    if l.len() == 0 {
        Seq::empty()
    } else {
        let front = text_items(l.drop_last());
        match as_text(l.last()) {
            Some(s) => front.push(s),
            None => front,
        }
    }
}

/// The text items of the list under this key; empty when the key is absent
/// or its value is not a list.
pub open spec fn text_list_or_empty(d: Seq<(String, ConfigValue)>, key: Seq<char>) -> Seq<
    Seq<char>,
> {
    match dict_lookup(d, key) {
        Some(v) => match as_list(v) {
            Some(l) => text_items(l),
            None => Seq::empty(),
        },
        None => Seq::empty(),
    }
}

/// Mathematical model of a [`ThemeConfigData`].
pub ghost struct ThemeView {
    pub name: Seq<char>,
    pub author: Seq<char>,
    pub version: Seq<char>,
    pub space: Option<Seq<char>>,
    pub default_font: Seq<char>,
    pub scripts: Seq<Seq<char>>,
    pub styles: Seq<Seq<char>>,
    pub components: Seq<char>,
}

/// One theme entry as configured by the host.
#[derive(Debug, Clone)]
pub struct ThemeConfigData {
    pub name: String,
    pub author: String,
    pub version: String,
    pub space: Option<String>,
    pub default_font: String,
    pub scripts: Vec<String>,
    pub styles: Vec<String>,
    pub components: String,
}

impl View for ThemeConfigData {
    type V = ThemeView;

    open spec fn view(&self) -> ThemeView {
        ThemeView {
            name: self.name@,
            author: self.author@,
            version: self.version@,
            space: match self.space {
                Some(s) => Some(s@),
                None => None,
            },
            default_font: self.default_font@,
            scripts: self.scripts@.map_values(|s: String| s@),
            styles: self.styles@.map_values(|s: String| s@),
            components: self.components@,
        }
    }
}

/// The theme record read from one entry of the theme list, each field
/// falling back to its documented default when absent or of the wrong
/// shape. An entry that is not keyed at all yields the all-defaults theme.
pub open spec fn theme_spec(v: ConfigValue) -> ThemeView {
    let d = match dict_entries(v) {
        Some(d) => d,
        None => Seq::<(String, ConfigValue)>::empty(),
    };
    ThemeView {
        name: text_or(d, "name"@, "unnamed"@),
        author: text_or(d, "author"@, "unknown"@),
        version: text_or(d, "version"@, "1.0.0"@),
        space: text_opt(d, "space"@),
        default_font: text_or(d, "default_font"@, "NeueMontreal-Regular"@),
        scripts: text_list_or_empty(d, "scripts"@),
        styles: text_list_or_empty(d, "styles"@),
        components: text_or(d, "components"@, "components/"@),
    }
}

/// The theme records of the whole theme list, in order.
pub open spec fn themes_spec(l: Seq<ConfigValue>) -> Seq<ThemeView>
    decreases l.len(),
{
    if l.len() == 0 {
        Seq::empty()
    } else {
        themes_spec(l.drop_last()).push(theme_spec(l.last()))
    }
}

/// Mathematical model of a [`ConfigParseResult`].
pub ghost struct ConfigResultView {
    pub selected_theme: Seq<char>,
    pub default_theme: Seq<char>,
    pub themes: Seq<ThemeView>,
}

/// The interpreted configuration: theme selection plus every theme record.
#[derive(Debug, Clone)]
pub struct ConfigParseResult {
    pub selected_theme: String,
    pub default_theme: String,
    pub themes: Vec<ThemeConfigData>,
}

impl View for ConfigParseResult {
    type V = ConfigResultView;

    open spec fn view(&self) -> ConfigResultView {
        ConfigResultView {
            selected_theme: self.selected_theme@,
            default_theme: self.default_theme@,
            themes: self.themes@.map_values(|t: ThemeConfigData| t@),
        }
    }
}

/// What interpreting a configuration document yields: the document must be
/// keyed with an `app` entry, whose `theme` entry must be a list; theme
/// selection falls back to its default when absent, and each theme entry is
/// read by [`theme_spec`].
pub open spec fn parse_config_spec(v: ConfigValue) -> Result<ConfigResultView, ConfigError> {
    match dict_entries(v) {
        None => Err(ConfigError::MissingAppKey),
        Some(top) => match dict_lookup(top, "app"@) {
            None => Err(ConfigError::MissingAppKey),
            Some(app) => {
                let d = match dict_entries(app) {
                    Some(d) => d,
                    None => Seq::<(String, ConfigValue)>::empty(),
                };
                match dict_lookup(d, "theme"@) {
                    Some(tv) => match as_list(tv) {
                        Some(l) => Ok(
                            ConfigResultView {
                                selected_theme: text_or(d, "selected_theme"@, "xwz_default"@),
                                default_theme: text_or(d, "default_theme"@, "xwz_default"@),
                                themes: themes_spec(l),
                            },
                        ),
                        None => Err(ConfigError::MissingThemeArray),
                    },
                    None => Err(ConfigError::MissingThemeArray),
                }
            },
        },
    }
}

/// The outcome of validating a theme's declared editor space.
#[derive(Debug, Clone)]
pub struct SpaceValidationResult {
    pub is_valid: bool,
    pub area_type: Option<String>,
    pub handler_name: Option<String>,
    pub error_message: Option<String>,
}

/// The value under the first entry with this key, by reference.
fn dict_get<'a>(d: &'a Vec<(String, ConfigValue)>, key: &String) -> (r: Option<&'a ConfigValue>)
    ensures
        match r {
            Some(v) => dict_lookup(d@, key@) == Some(*v),
            None => dict_lookup(d@, key@) is None,
        },
{
    let ghost all = d@;
    proof {
        assert(all.skip(0) =~= all);
    }
    let mut i: usize = 0;
    while i < d.len()
        invariant
            i <= all.len(),
            all == d@,
            dict_lookup(all, key@) == dict_lookup(all.skip(i as int), key@),
        decreases all.len() - i,
    {
        proof {
            assert(all.skip(i as int)[0] == all[i as int]);
        }
        let e = &d[i];
        if e.0 == *key {
            return Some(&e.1);
        }
        proof {
            assert(all.skip(i as int).drop_first() =~= all.skip(i as int + 1));
        }
        i += 1;
    }
    None
}

/// The text under this key, or the default.
fn get_text_or(d: &Vec<(String, ConfigValue)>, key: &String, dflt: &str) -> (r: String)
    ensures
        r@ == text_or(d@, key@, dflt@),
{
    match dict_get(d, key) {
        Some(v) => match v {
            ConfigValue::Text(s) => s.clone(),
            _ => dflt.to_owned(),
        },
        None => dflt.to_owned(),
    }
}

/// The text under this key, if any.
fn get_text_opt(d: &Vec<(String, ConfigValue)>, key: &String) -> (r: Option<String>)
    ensures
        match r {
            Some(s) => text_opt(d@, key@) == Some(s@),
            None => text_opt(d@, key@) is None,
        },
{
    match dict_get(d, key) {
        Some(v) => match v {
            ConfigValue::Text(s) => Some(s.clone()),
            _ => None,
        },
        None => None,
    }
}

/// The text items of the list under this key, or an empty list.
fn get_text_list_or_empty(d: &Vec<(String, ConfigValue)>, key: &String) -> (r: Vec<String>)
    ensures
        r@.map_values(|s: String| s@) == text_list_or_empty(d@, key@),
{
    let empty: Vec<String> = Vec::new();
    proof {
        assert(empty@.map_values(|s: String| s@) =~= Seq::<Seq<char>>::empty());
    }
    match dict_get(d, key) {
        Some(v) => match v {
            ConfigValue::List(l) => {
                let mut r: Vec<String> = Vec::new();
                let mut i: usize = 0;
                while i < l.len()
                    invariant
                        i <= l@.len(),
                        r@.map_values(|s: String| s@) == text_items(l@.take(i as int)),
                    decreases l@.len() - i,
                {
                    proof {
                        assert(l@.take(i as int + 1).drop_last() =~= l@.take(i as int));
                        assert(l@.take(i as int + 1).last() == l@[i as int]);
                    }
                    match &l[i] {
                        ConfigValue::Text(s) => {
                            r.push(s.clone());
                            proof {
                                assert(r@.map_values(|s: String| s@) =~= text_items(
                                    l@.take(i as int + 1),
                                ));
                            }
                        },
                        _ => {},
                    }
                    i += 1;
                }
                proof {
                    assert(l@.take(l@.len() as int) =~= l@);
                }
                r
            },
            _ => empty,
        },
        None => empty,
    }
}

/// One theme record, with the documented defaults filled in.
fn parse_theme(v: &ConfigValue) -> (r: ThemeConfigData)
    ensures
        r@ == theme_spec(*v),
{
    let no_entries: Vec<(String, ConfigValue)> = Vec::new();
    proof {
        assert(no_entries@ =~= Seq::<(String, ConfigValue)>::empty());
    }
    let d: &Vec<(String, ConfigValue)> = match v {
        ConfigValue::Dict(entries) => entries,
        _ => &no_entries,
    };
    ThemeConfigData {
        name: get_text_or(d, &"name".to_owned(), "unnamed"),
        author: get_text_or(d, &"author".to_owned(), "unknown"),
        version: get_text_or(d, &"version".to_owned(), "1.0.0"),
        space: get_text_opt(d, &"space".to_owned()),
        default_font: get_text_or(d, &"default_font".to_owned(), "NeueMontreal-Regular"),
        scripts: get_text_list_or_empty(d, &"scripts".to_owned()),
        styles: get_text_list_or_empty(d, &"styles".to_owned()),
        components: get_text_or(d, &"components".to_owned(), "components/"),
    }
}

/// Interprets configuration documents and validates theme spaces.
#[derive(Clone)]
pub struct ConfigParser {
    space_mapper: SpaceMapper,
}

impl View for ConfigParser {
    type V = Seq<(Seq<char>, Seq<char>)>;

    closed spec fn view(&self) -> Seq<(Seq<char>, Seq<char>)> {
        self.space_mapper@
    }
}

impl ConfigParser {
    /// A parser over the full table of supported spaces.
    pub fn new() -> (r: ConfigParser)
        ensures
            r@ == crate::space_mapper::space_table(),
    {
        ConfigParser { space_mapper: SpaceMapper::new() }
    }

    /// Interpret an already-parsed configuration document: the document
    /// must carry an `app` entry whose `theme` entry is a list, the theme
    /// selection falls back to its default, and each theme entry is read
    /// with its documented per-field defaults. Rejected exactly when
    /// [`parse_config_spec`] rejects.
    pub fn parse_config(&self, config: &ConfigValue) -> (r: Result<
        ConfigParseResult,
        ConfigError,
    >)
        ensures
            match r {
                Ok(c) => parse_config_spec(*config) == Ok::<ConfigResultView, ConfigError>(c@),
                Err(e) => parse_config_spec(*config) == Err::<ConfigResultView, ConfigError>(e),
            },
    {
        let no_entries: Vec<(String, ConfigValue)> = Vec::new();
        proof {
            assert(no_entries@ =~= Seq::<(String, ConfigValue)>::empty());
        }
        let top: &Vec<(String, ConfigValue)> = match config {
            ConfigValue::Dict(entries) => entries,
            _ => {
                return Err(ConfigError::MissingAppKey);
            },
        };
        let app: &ConfigValue = match dict_get(top, &"app".to_owned()) {
            Some(v) => v,
            None => {
                return Err(ConfigError::MissingAppKey);
            },
        };
        let d: &Vec<(String, ConfigValue)> = match app {
            ConfigValue::Dict(entries) => entries,
            _ => &no_entries,
        };
        let theme_list: &Vec<ConfigValue> = match dict_get(d, &"theme".to_owned()) {
            Some(v) => match v {
                ConfigValue::List(l) => l,
                _ => {
                    return Err(ConfigError::MissingThemeArray);
                },
            },
            None => {
                return Err(ConfigError::MissingThemeArray);
            },
        };
        let mut themes: Vec<ThemeConfigData> = Vec::new();
        let mut i: usize = 0;
        while i < theme_list.len()
            invariant
                i <= theme_list@.len(),
                themes@.map_values(|t: ThemeConfigData| t@) == themes_spec(
                    theme_list@.take(i as int),
                ),
            decreases theme_list@.len() - i,
        {
            proof {
                assert(theme_list@.take(i as int + 1).drop_last() =~= theme_list@.take(i as int));
                assert(theme_list@.take(i as int + 1).last() == theme_list@[i as int]);
            }
            let t = parse_theme(&theme_list[i]);
            themes.push(t);
            proof {
                assert(themes@.map_values(|t: ThemeConfigData| t@) =~= themes_spec(
                    theme_list@.take(i as int + 1),
                ));
            }
            i += 1;
        }
        proof {
            assert(theme_list@.take(theme_list@.len() as int) =~= theme_list@);
        }
        Ok(
            ConfigParseResult {
                selected_theme: get_text_or(d, &"selected_theme".to_owned(), "xwz_default"),
                default_theme: get_text_or(d, &"default_theme".to_owned(), "xwz_default"),
                themes,
            },
        )
    }

    /// Validate a theme's declared space: no declaration falls back to the
    /// default `VIEW_3D` space; a declared space is valid exactly when the
    /// supported table lists it, and an invalid one is reported with a
    /// message naming it.
    pub fn validate_space(&self, space_name: Option<&str>) -> (r: SpaceValidationResult)
        ensures
            match space_name {
                None => {
                    &&& r.is_valid
                    &&& match r.area_type {
                        Some(a) => a@ == "VIEW_3D"@,
                        None => false,
                    }
                    &&& match r.handler_name {
                        Some(h) => h@ == "SpaceView3D"@,
                        None => false,
                    }
                    &&& r.error_message is None
                },
                Some(space) => {
                    &&& r.is_valid == (space_lookup(self@, space@) is Some)
                    &&& match r.area_type {
                        Some(a) => a@ == space@,
                        None => false,
                    }
                    &&& match r.handler_name {
                        Some(h) => space_lookup(self@, space@) == Some(h@),
                        None => space_lookup(self@, space@) is None,
                    }
                    &&& match r.error_message {
                        Some(m) => space_lookup(self@, space@) is None && m@ == "Invalid space type: '"@
                            + space@ + "'"@,
                        None => space_lookup(self@, space@) is Some,
                    }
                },
            },
    {
        match space_name {
            Some(space) => {
                match self.space_mapper.get_handler_name(space) {
                    Some(handler) => {
                        let h: String = handler.to_owned();
                        SpaceValidationResult {
                            is_valid: true,
                            area_type: Some(space.to_owned()),
                            handler_name: Some(h),
                            error_message: None,
                        }
                    },
                    None => {
                        let mut msg: String = "Invalid space type: '".to_owned();
                        msg.append(space);
                        msg.append("'");
                        SpaceValidationResult {
                            is_valid: false,
                            area_type: Some(space.to_owned()),
                            handler_name: None,
                            error_message: Some(msg),
                        }
                    },
                }
            },
            None => SpaceValidationResult {
                is_valid: true,
                area_type: Some("VIEW_3D".to_owned()),
                handler_name: Some("SpaceView3D".to_owned()),
                error_message: None,
            },
        }
    }

    /// Every supported area type, in table order.
    pub fn get_supported_spaces(&self) -> (r: Vec<String>)
        ensures
            r@.map_values(|s: String| s@) == self@.map_values(|p: (Seq<char>, Seq<char>)| p.0),
    {
        let borrowed = self.space_mapper.get_supported_spaces();
        let mut r: Vec<String> = Vec::new();
        let mut i: usize = 0;
        let ghost keys = self@.map_values(|p: (Seq<char>, Seq<char>)| p.0);
        while i < borrowed.len()
            invariant
                i <= borrowed@.len(),
                r@.len() == i,
                keys == self@.map_values(|p: (Seq<char>, Seq<char>)| p.0),
                borrowed@.map_values(|s: &str| s@) == keys,
                r@.map_values(|s: String| s@) == keys.take(i as int),
            decreases borrowed@.len() - i,
        {
            r.push(borrowed[i].to_owned());
            proof {
                assert(r@.last()@ == keys[i as int]);
                assert(r@.map_values(|s: String| s@) =~= keys.take(i as int + 1));
            }
            i += 1;
        }
        proof {
            assert(keys.take(keys.len() as int) =~= keys);
        }
        r
    }
}

} // verus!
