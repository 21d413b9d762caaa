//! The mapping from host area-type names to their handler names: a fixed
//! table consulted when a theme declares which editor space it targets.

use vstd::prelude::*;

verus! {

/// The handler name of the first table entry whose area type matches.
pub open spec fn space_lookup(s: Seq<(Seq<char>, Seq<char>)>, area: Seq<char>) -> Option<Seq<char>>
    decreases s.len(),
{
    if s.len() == 0 {
        None
    } else if s[0].0 == area {
        Some(s[0].1)
    } else {
        space_lookup(s.drop_first(), area)
    }
}

/// The fixed table of supported area types and their handler names.
pub open spec fn space_table() -> Seq<(Seq<char>, Seq<char>)> {
    seq![
        ("VIEW_3D"@, "SpaceView3D"@),
        ("IMAGE_EDITOR"@, "SpaceImageEditor"@),
        ("NODE_EDITOR"@, "SpaceNodeEditor"@),
        ("SEQUENCE_EDITOR"@, "SpaceSequenceEditor"@),
        ("CLIP_EDITOR"@, "SpaceClipEditor"@),
        ("DOPESHEET_EDITOR"@, "SpaceDopeSheetEditor"@),
        ("GRAPH_EDITOR"@, "SpaceGraphEditor"@),
        ("NLA_EDITOR"@, "SpaceNLA"@),
        ("TEXT_EDITOR"@, "SpaceTextEditor"@),
        ("CONSOLE"@, "SpaceConsole"@),
        ("INFO"@, "SpaceInfo"@),
        ("TOPBAR"@, "SpaceTopBar"@),
        ("STATUSBAR"@, "SpaceStatusBar"@),
        ("OUTLINER"@, "SpaceOutliner"@),
        ("PROPERTIES"@, "SpaceProperties"@),
        ("FILE_BROWSER"@, "SpaceFileBrowser"@),
        ("SPREADSHEET"@, "SpaceSpreadsheet"@),
        ("PREFERENCES"@, "SpacePreferences"@),
    ]
}

/// Maps host area-type names to handler names over a fixed table.
#[derive(Clone)]
pub struct SpaceMapper {
    entries: Vec<(String, String)>,
}

impl View for SpaceMapper {
    type V = Seq<(Seq<char>, Seq<char>)>;

    closed spec fn view(&self) -> Seq<(Seq<char>, Seq<char>)> {
        self.entries@.map_values(|p: (String, String)| (p.0@, p.1@))
    }
}

impl SpaceMapper {
    /// A mapper over the full table of supported area types.
    pub fn new() -> (r: SpaceMapper)
        ensures
            r@ == space_table(),
    {
        let mut entries: Vec<(String, String)> = Vec::new();
        entries.push(("VIEW_3D".to_owned(), "SpaceView3D".to_owned()));
        entries.push(("IMAGE_EDITOR".to_owned(), "SpaceImageEditor".to_owned()));
        entries.push(("NODE_EDITOR".to_owned(), "SpaceNodeEditor".to_owned()));
        entries.push(("SEQUENCE_EDITOR".to_owned(), "SpaceSequenceEditor".to_owned()));
        entries.push(("CLIP_EDITOR".to_owned(), "SpaceClipEditor".to_owned()));
        entries.push(("DOPESHEET_EDITOR".to_owned(), "SpaceDopeSheetEditor".to_owned()));
        entries.push(("GRAPH_EDITOR".to_owned(), "SpaceGraphEditor".to_owned()));
        entries.push(("NLA_EDITOR".to_owned(), "SpaceNLA".to_owned()));
        entries.push(("TEXT_EDITOR".to_owned(), "SpaceTextEditor".to_owned()));
        entries.push(("CONSOLE".to_owned(), "SpaceConsole".to_owned()));
        entries.push(("INFO".to_owned(), "SpaceInfo".to_owned()));
        entries.push(("TOPBAR".to_owned(), "SpaceTopBar".to_owned()));
        entries.push(("STATUSBAR".to_owned(), "SpaceStatusBar".to_owned()));
        entries.push(("OUTLINER".to_owned(), "SpaceOutliner".to_owned()));
        entries.push(("PROPERTIES".to_owned(), "SpaceProperties".to_owned()));
        entries.push(("FILE_BROWSER".to_owned(), "SpaceFileBrowser".to_owned()));
        entries.push(("SPREADSHEET".to_owned(), "SpaceSpreadsheet".to_owned()));
        entries.push(("PREFERENCES".to_owned(), "SpacePreferences".to_owned()));
        let r = SpaceMapper { entries };
        proof {
            assert(r@ =~= space_table());
        }
        r
    }

    /// The handler name registered for this area type, if any.
    pub fn get_handler_name<'a>(&'a self, area_type: &str) -> (r: Option<&'a str>)
        ensures
            match r {
                Some(h) => space_lookup(self@, area_type@) == Some(h@),
                None => space_lookup(self@, area_type@) is None,
            },
    {
        let key: String = area_type.to_owned();
        let ghost table = self@;
        proof {
            assert(table.skip(0) =~= table);
        }
        let mut i: usize = 0;
        while i < self.entries.len()
            invariant
                i <= self.entries@.len(),
                table == self@,
                key@ == area_type@,
                table.len() == self.entries@.len(),
                space_lookup(table, area_type@) == space_lookup(table.skip(i as int), area_type@),
            decreases self.entries@.len() - i,
        {
            proof {
                assert(table.skip(i as int)[0] == table[i as int]);
            }
            let e = &self.entries[i];
            if e.0 == key {
                return Some(e.1.as_str());
            }
            proof {
                assert(table.skip(i as int).drop_first() =~= table.skip(i as int + 1));
            }
            i += 1;
        }
        None
    }

    /// Whether this area type is in the table.
    pub fn is_valid_area_type(&self, area_type: &str) -> (r: bool)
        ensures
            r == (space_lookup(self@, area_type@) is Some),
    {
        self.get_handler_name(area_type).is_some()
    }

    /// Every supported area type, in table order.
    pub fn get_supported_spaces<'a>(&'a self) -> (r: Vec<&'a str>)
        ensures
            r@.map_values(|s: &str| s@) == self@.map_values(|p: (Seq<char>, Seq<char>)| p.0),
    {
        let mut r: Vec<&str> = Vec::new();
        let mut i: usize = 0;
        while i < self.entries.len()
            invariant
                i <= self.entries@.len(),
                r@.len() == i,
                r@.map_values(|s: &str| s@) == self@.map_values(
                    |p: (Seq<char>, Seq<char>)| p.0,
                ).take(i as int),
            decreases self.entries@.len() - i,
        {
            let e = &self.entries[i];
            r.push(e.0.as_str());
            proof {
                assert(r@.last()@ == self@[i as int].0);
            }
            proof {
                assert(r@.map_values(|s: &str| s@) =~= self@.map_values(
                    |p: (Seq<char>, Seq<char>)| p.0,
                ).take(i as int + 1));
            }
            i += 1;
        }
        proof {
            let keys = self@.map_values(|p: (Seq<char>, Seq<char>)| p.0);
            assert(keys.take(keys.len() as int) =~= keys);
        }
        r
    }
}

impl Default for SpaceMapper {
    /// The same full table as [`SpaceMapper::new`].
    fn default() -> (r: Self)
        ensures
            r@ == space_table(),
    {
        Self::new()
    }
}

} // verus!
