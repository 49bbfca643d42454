//! The OS identification file, an INI document without sections.

use vstd::prelude::*;

verus! {

/// Where the OS identification file lies.
pub const OS_RELEASE_PATH: &'static str = "/etc/os-release";

/// `ini::Ini`, a parsed INI document.
#[verifier::external_type_specification]
#[verifier::external_body]
pub struct ExIni(ini::Ini);

/// What the general section of `doc` holds, the section before the first
/// section header: each of its keys with the first value given for it. Empty
/// where the document has no general section.
pub uninterp spec fn general_entries(doc: ini::Ini) -> Map<Seq<char>, Seq<char>>;

/// What the general section of the document `text` holds, where `text` is a
/// well-formed INI document.
pub uninterp spec fn parsed_general(text: Seq<char>) -> Option<Map<Seq<char>, Seq<char>>>;

/// `ini::Ini::load_from_str`: parses `text` with the default options. The
/// general section of the document it gives depends on `text` alone.
#[verifier::external_body]
pub(crate) fn parse_ini(text: &str) -> (r: Result<ini::Ini, ini::ParseError>)
    ensures
        r is Ok <==> parsed_general(text@) is Some,
        r matches Ok(doc) ==> parsed_general(text@) == Some(general_entries(doc)),
{
    ini::Ini::load_from_str(text)
}

/// `ini::Ini::get_from` on the general section: the first value that the
/// section gives for `key`, if it has the key.
#[verifier::external_body]
pub(crate) fn general_get(doc: &ini::Ini, key: &str) -> (r: Option<String>)
    ensures
        r is Some <==> general_entries(*doc).dom().contains(key@),
        r matches Some(v) ==> general_entries(*doc)[key@] == v@,
{
    doc.get_from(None::<String>, key).map(String::from)
}

/// The value of `key` among `entries`.
pub open spec fn entry(entries: Map<Seq<char>, Seq<char>>, key: Seq<char>) -> Option<Seq<char>> {
    if entries.dom().contains(key) {
        Some(entries[key])
    } else {
        None
    }
}

/// `text` without the byte-order mark that it may start with.
pub open spec fn without_bom(text: Seq<char>) -> Seq<char> {
    if text.len() > 0 && text[0] == '\u{feff}' {
        text.skip(1)
    } else {
        text
    }
}

} // verus!
