//! Reading the display name of a desktop entry and matching it against a search.

use vstd::prelude::*;
use crate::text::{lower_of, is_substring, lowercase, contains};

verus! {

#[verifier::external_type_specification]
#[verifier::external_body]
pub struct ExIni(ini::Ini);

#[verifier::external_type_specification]
#[verifier::external_body]
pub struct ExProperties(ini::Properties);

/// The named sections of a parsed file, as `Ini::section` finds them: each
/// section name mapped to its keys and values as `Properties::get` finds them.
pub uninterp spec fn ini_sections(i: ini::Ini) -> Map<Seq<char>, Map<Seq<char>, Seq<char>>>;

/// The keys and values of one section, as `Properties::get` finds them.
pub uninterp spec fn property_map(p: ini::Properties) -> Map<Seq<char>, Seq<char>>;

/// What `Ini::load_from_str` makes of a text: its named sections, or `None`
/// where it reports a parse error.
pub uninterp spec fn ini_parse(text: Seq<char>) -> Option<Map<Seq<char>, Map<Seq<char>, Seq<char>>>>;

/// Relies on `ini::Ini::load_from_str`: parses the text into sections of
/// key/value pairs, or fails with a parse error, whose message is returned.
#[verifier::external_body]
fn parse_ini(text: &str) -> (r: Result<ini::Ini, String>)
    ensures
        match r {
            Ok(i) => ini_parse(text@) == Some(ini_sections(i)),
            Err(_) => ini_parse(text@) is None,
        },
{
    match ini::Ini::load_from_str(text) {
        Ok(i) => Ok(i),
        Err(e) => Err(e.to_string()),
    }
}

/// Relies on `ini::Ini::section`: the section of the given name, if there is one.
#[verifier::external_body]
fn ini_section<'a>(i: &'a ini::Ini, name: &str) -> (r: Option<&'a ini::Properties>)
    ensures
        match r {
            Some(p) => ini_sections(*i).contains_key(name@) && property_map(*p) == ini_sections(*i)[name@],
            None => !ini_sections(*i).contains_key(name@),
        },
{
    i.section(Some(name))
}

/// Relies on `ini::Properties::get`: the value of the given key, if there is one.
#[verifier::external_body]
fn property_get(p: &ini::Properties, key: &str) -> (r: Option<String>)
    ensures
        match r {
            Some(v) => property_map(*p).contains_key(key@) && v@ == property_map(*p)[key@],
            None => !property_map(*p).contains_key(key@),
        },
{
    match p.get(key) {
        Some(v) => Some(v.to_string()),
        None => None,
    }
}

/// Why an entry file gives no display name.
#[derive(Debug)]
pub enum EntryError {
    /// The text is not key/value sections; the parser's message.
    Unparsable(String),
    /// There is no `[Desktop Entry]` section.
    MissingSection,
    /// The `[Desktop Entry]` section has no `Name` key.
    MissingKey,
}

impl EntryError {
    pub fn message(&self) -> (r: String)
        ensures
            match self {
                EntryError::Unparsable(m) => r@ == m@,
                EntryError::MissingSection => r@ == "No [Desktop Entry] section"@,
                EntryError::MissingKey => r@ == "No Name key"@,
            },
    {
        match self {
            EntryError::Unparsable(m) => m.clone(),
            EntryError::MissingSection => String::from_str("No [Desktop Entry] section"),
            EntryError::MissingKey => String::from_str("No Name key"),
        }
    }
}

/// The `Name` value of the `[Desktop Entry]` section of a text, if there is one.
pub open spec fn desktop_name(text: Seq<char>) -> Option<Seq<char>> {
    match ini_parse(text) {
        Some(m) => if m.contains_key("Desktop Entry"@) && m["Desktop Entry"@].contains_key("Name"@) {
            Some(m["Desktop Entry"@]["Name"@])
        } else {
            None
        },
        None => None,
    }
}

/// `r` is the outcome of looking up the display name in `text`.
pub open spec fn name_lookup(text: Seq<char>, r: Result<String, EntryError>) -> bool {
    match r {
        Ok(n) => desktop_name(text) == Some(n@),
        Err(EntryError::Unparsable(_)) => ini_parse(text) is None,
        Err(EntryError::MissingSection) => ini_parse(text) matches Some(m) && !m.contains_key(
            "Desktop Entry"@,
        ),
        Err(EntryError::MissingKey) => ini_parse(text) matches Some(m) && m.contains_key(
            "Desktop Entry"@,
        ) && !m["Desktop Entry"@].contains_key("Name"@),
    }
}

/// The display name that an entry file's text declares: the `Name` key of
/// its `[Desktop Entry]` section.
pub fn entry_name(text: &str) -> (r: Result<String, EntryError>)
    ensures
        name_lookup(text@, r),
{
    let info = match parse_ini(text) {
        Ok(i) => i,
        Err(m) => {
            return Err(EntryError::Unparsable(m));
        },
    };
    let sec = match ini_section(&info, "Desktop Entry") {
        Some(s) => s,
        None => {
            return Err(EntryError::MissingSection);
        },
    };
    match property_get(sec, "Name") {
        Some(n) => Ok(n),
        None => Err(EntryError::MissingKey),
    }
}

/// Whether the search text occurs in the name, both lowercased.
pub fn name_matches(name: &str, needle: &str) -> (r: bool)
    ensures
        r == is_substring(lower_of(name@), lower_of(needle@)),
{
    let n = lowercase(name);
    let q = lowercase(needle);
    contains(n.as_str(), q.as_str())
}

/// An entry file: its full path and its text, or why it could not be read.
#[derive(Debug)]
pub struct EntryFile {
    pub path: String,
    pub text: Result<String, String>,
}

/// A search directory and its entry files, or why they could not be listed.
#[derive(Debug)]
pub struct FindDir {
    pub path: String,
    pub files: Result<Vec<EntryFile>, String>,
}

/// What a search reports; a malformed or unreadable file is reported and
/// the search goes on.
#[derive(Debug)]
pub enum FindEvent {
    /// The directory and why its entries could not be listed.
    CouldNotList(String, String),
    /// The file and why it could not be read.
    CouldNotRead(String, String),
    /// The file and why it gives no display name.
    Malformed(String, EntryError),
    /// The file and its display name, which matches the search.
    Found(String, String),
}

/// `e` is what searching `f` for `needle` reports.
pub open spec fn file_event(f: EntryFile, needle: Seq<char>, e: Option<FindEvent>) -> bool {
    match f.text {
        Err(c) => e matches Some(FindEvent::CouldNotRead(p, m)) && p@ == f.path@ && m@ == c@,
        Ok(t) => match desktop_name(t@) {
            None => e matches Some(FindEvent::Malformed(p, err)) && p@ == f.path@ && name_lookup(
                t@,
                Err(err),
            ),
            Some(n) => if is_substring(lower_of(n), lower_of(needle)) {
                e matches Some(FindEvent::Found(p, m)) && p@ == f.path@ && m@ == n
            } else {
                e is None
            },
        },
    }
}

/// `r` is what searching `d` for `needle` reports: the listing error, or
/// one optional report per entry file, in order.
pub open spec fn dir_events(d: FindDir, needle: Seq<char>, r: Seq<Option<FindEvent>>) -> bool {
    match d.files {
        Err(c) => r.len() == 1 && (r[0] matches Some(FindEvent::CouldNotList(p, m)) && p@ == d.path@
            && m@ == c@),
        Ok(fs) => r.len() == fs.len() && forall|i: int|
            0 <= i < fs.len() ==> file_event(fs[i], needle, #[trigger] r[i]),
    }
}

/// What searching one entry file reports: a match, no report, or why the
/// file was skipped.
pub fn find_in_file(f: &EntryFile, needle: &str) -> (r: Option<FindEvent>)
    ensures
        file_event(*f, needle@, r),
{
    match &f.text {
        Err(c) => Some(FindEvent::CouldNotRead(f.path.clone(), c.clone())),
        Ok(t) => match entry_name(t.as_str()) {
            Err(e) => Some(FindEvent::Malformed(f.path.clone(), e)),
            Ok(n) => if name_matches(n.as_str(), needle) {
                Some(FindEvent::Found(f.path.clone(), n))
            } else {
                None
            },
        },
    }
}

/// What searching one directory reports.
pub fn find_in_dir(d: &FindDir, needle: &str) -> (r: Vec<Option<FindEvent>>)
    ensures
        dir_events(*d, needle@, r@),
{
    let mut r: Vec<Option<FindEvent>> = Vec::new();
    match &d.files {
        Err(c) => {
            r.push(Some(FindEvent::CouldNotList(d.path.clone(), c.clone())));
        },
        Ok(fs) => {
            let mut i: usize = 0;
            while i < fs.len()
                invariant
                    i <= fs.len(),
                    r.len() == i,
                    forall|j: int| 0 <= j < i ==> file_event(fs[j], needle@, #[trigger] r[j]),
                decreases fs.len() - i,
            {
                r.push(find_in_file(&fs[i], needle));
                i = i + 1;
            }
        },
    }
    r
}

/// What searching each directory reports, in the order given.
pub fn find(dirs: &Vec<FindDir>, needle: &str) -> (r: Vec<Vec<Option<FindEvent>>>)
    ensures
        r.len() == dirs.len(),
        forall|i: int| 0 <= i < dirs.len() ==> dir_events(dirs[i], needle@, #[trigger] r[i]@),
{
    let mut r: Vec<Vec<Option<FindEvent>>> = Vec::new();
    let mut i: usize = 0;
    while i < dirs.len()
        invariant
            i <= dirs.len(),
            r.len() == i,
            forall|j: int| 0 <= j < i ==> dir_events(dirs[j], needle@, #[trigger] r[j]@),
        decreases dirs.len() - i,
    {
        r.push(find_in_dir(&dirs[i], needle));
        i = i + 1;
    }
    r
}

} // verus!
