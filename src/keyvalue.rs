//! Key-value text (the INI dialect of descriptors and settings files), read through rust-ini.
use vstd::prelude::*;

verus! {

#[verifier::external_type_specification]
#[verifier::external_body]
pub struct ExIni(ini::Ini);

/// What a parsed document holds: for each section name (`None` for the keys
/// before any section header), the keys of the first section of that name, each
/// with its first value.
pub type Sections = Map<Option<Seq<char>>, Map<Seq<char>, Seq<char>>>;

/// The sections that an `Ini` value holds.
pub uninterp spec fn ini_sections(i: ini::Ini) -> Map<Option<Seq<char>>, Map<Seq<char>, Seq<char>>>;

/// What rust-ini reads from a text: `None` where the text is not well-formed.
pub uninterp spec fn ini_parsed(text: Seq<char>) -> Option<Map<Option<Seq<char>>, Map<Seq<char>, Seq<char>>>>;

/// The text of an optional string.
pub open spec fn opt_text(s: Option<&str>) -> Option<Seq<char>> {
    match s {
        Some(t) => Some(t@),
        None => None,
    }
}

/// The first value of `key` in `section`, if both are present.
pub open spec fn lookup(secs: Sections, section: Option<Seq<char>>, key: Seq<char>) -> Option<Seq<char>> {
    if secs.contains_key(section) && secs[section].contains_key(key) {
        Some(secs[section][key])
    } else {
        None
    }
}

/// Relies on `ini::Ini::load_from_str`: it fails or succeeds, and reads the
/// sections, as a function of the text alone. Its error carries only a
/// position and a message, which nothing here reads.
#[verifier::external_body]
pub(crate) fn load_text(text: &str) -> (r: Option<ini::Ini>)
    ensures
        match r {
            Some(i) => ini_parsed(text@) == Some(ini_sections(i)),
            None => ini_parsed(text@) is None,
        },
{
    ini::Ini::load_from_str(text).ok()
}

/// Relies on `ini::Ini::section`: some section of that name is present.
#[verifier::external_body]
pub(crate) fn has_section(doc: &ini::Ini, name: &str) -> (r: bool)
    ensures
        r == ini_sections(*doc).contains_key(Some(name@)),
{
    doc.section(Some(name)).is_some()
}

/// Relies on `ini::Ini::get_from`: the first value of `key` in the first
/// section named `section`.
#[verifier::external_body]
pub(crate) fn value_of(doc: &ini::Ini, section: Option<&str>, key: &str) -> (r: Option<String>)
    ensures
        r matches Some(v) ==> lookup(ini_sections(*doc), opt_text(section), key@) == Some(v@),
        r is None ==> lookup(ini_sections(*doc), opt_text(section), key@) is None,
{
    doc.get_from(section, key).map(|v| v.to_string())
}

} // verus!
