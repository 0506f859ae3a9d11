//! The INI document, kept in `ini::Ini`, and the mathematical model that the
//! contracts of this crate speak of.
//!
//! A document is modelled as the sequence of its sections in file order. A
//! section is its name (`None` for the general section that precedes the first
//! header) and its entries, again in order. A key may occur more than once in a
//! section, and a name more than once in a document.

use ini::Ini;
use vstd::prelude::*;

verus! {

/// `ini::Ini`, the document type of the `rust-ini` crate. Nothing inside it is
/// visible here; `sections_of` says what it holds.
#[verifier::external_type_specification]
#[verifier::external_body]
pub struct ExIni(ini::Ini);

/// The entries of one section: `(key, value)` pairs in order.
pub type Entries = Seq<(Seq<char>, Seq<char>)>;

/// The sections of a document: `(name, entries)` pairs in order.
pub type Sections = Seq<(Option<Seq<char>>, Entries)>;

/// What a document holds: its sections with their entries, in the order in
/// which `Ini::iter` and `Properties::iter` walk them.
pub uninterp spec fn sections_of(doc: Ini) -> Seq<(Option<Seq<char>>, Seq<(Seq<char>, Seq<char>)>)>;

/// What `Ini::load_from_str` makes of a text: the sections of the document, or
/// the parser's complaint in the form `line:col message`.
pub uninterp spec fn parsed_ini(text: Seq<char>) -> Result<
    Seq<(Option<Seq<char>>, Seq<(Seq<char>, Seq<char>)>)>,
    Seq<char>,
>;

/// The bytes that `Ini::write_to` writes for a document with these sections:
/// `key=value` lines under `[name]` headers, with the escapes and the line
/// ending of that crate's default write options.
pub uninterp spec fn rendered_ini(
    sections: Seq<(Option<Seq<char>>, Seq<(Seq<char>, Seq<char>)>)>,
) -> Seq<u8>;

/// The position of the first section called `name`, if there is one.
pub open spec fn first_named(sections: Sections, name: Seq<char>) -> Option<int>
    decreases sections.len(),
{
    if sections.len() == 0 {
        None
    } else {
        match first_named(sections.drop_last(), name) {
            Some(i) => Some(i),
            None => if sections.last().0 == Some(name) {
                Some(sections.len() - 1)
            } else {
                None
            },
        }
    }
}

/// Whether some section is called `name`.
pub open spec fn has_section(sections: Sections, name: Seq<char>) -> bool {
    exists|i: int| 0 <= i < sections.len() && (#[trigger] sections[i]).0 == Some(name)
}

/// The test that an entry has this key.
pub open spec fn has_key(key: Seq<char>) -> spec_fn((Seq<char>, Seq<char>)) -> bool {
    |e: (Seq<char>, Seq<char>)| e.0 == key
}

/// The test that an entry has another key than this.
pub open spec fn has_other_key(key: Seq<char>) -> spec_fn((Seq<char>, Seq<char>)) -> bool {
    |e: (Seq<char>, Seq<char>)| e.0 != key
}

/// The entries of `key`, in order.
pub open spec fn entries_of(entries: Entries, key: Seq<char>) -> Entries {
    entries.filter(has_key(key))
}

/// The value of `key` as a lookup gives it: the first one, if the key occurs.
pub open spec fn lookup(entries: Entries, key: Seq<char>) -> Option<Seq<char>> {
    if entries_of(entries, key).len() > 0 {
        Some(entries_of(entries, key)[0].1)
    } else {
        None
    }
}

/// The entries after `key` is set to `value`: every earlier entry of that key
/// is gone and the new pair stands last.
pub open spec fn set_entry(entries: Entries, key: Seq<char>, value: Seq<char>) -> Entries {
    entries.filter(has_other_key(key)).push((key, value))
}

/// The sections after `key` is set to `value` in the first section called
/// `name`; unchanged where no section has that name.
pub open spec fn set_in_section(
    sections: Sections,
    name: Seq<char>,
    key: Seq<char>,
    value: Seq<char>,
) -> Sections {
    match first_named(sections, name) {
        Some(i) => sections.update(i, (sections[i].0, set_entry(sections[i].1, key, value))),
        None => sections,
    }
}

/// `first_named` finds a section of that name, and none stands before it; where
/// it finds nothing, no section has the name.
pub proof fn lemma_first_named(sections: Sections, name: Seq<char>)
    ensures
        match first_named(sections, name) {
            Some(i) => {
                &&& 0 <= i < sections.len()
                &&& sections[i].0 == Some(name)
                &&& forall|j: int| 0 <= j < i ==> (#[trigger] sections[j]).0 != Some(name)
            },
            None => forall|j: int| 0 <= j < sections.len() ==> (#[trigger] sections[j]).0 != Some(name),
        },
        first_named(sections, name) is Some <==> has_section(sections, name),
    decreases sections.len(),
{
    if sections.len() > 0 {
        let front = sections.drop_last();
        lemma_first_named(front, name);
        assert(forall|j: int| 0 <= j < front.len() ==> front[j] == sections[j]);
    }
}

/// Two documents whose sections carry the same names in the same order find a
/// name at the same place.
pub proof fn lemma_first_named_by_names(a: Sections, b: Sections, name: Seq<char>)
    requires
        a.len() == b.len(),
        forall|i: int| 0 <= i < a.len() ==> (#[trigger] a[i]).0 == b[i].0,
    ensures
        first_named(a, name) == first_named(b, name),
    decreases a.len(),
{
    if a.len() > 0 {
        lemma_first_named_by_names(a.drop_last(), b.drop_last(), name);
    }
}

/// Calls `Ini::load_from_str`. The contract names the outcome after the text
/// alone: the same text gives the same sections or the same complaint, which
/// is the parse error as its `Display` impl prints it.
#[verifier::external_body]
pub(crate) fn parse(text: &str) -> (r: Result<Ini, String>)
    ensures
        match r {
            Ok(doc) => parsed_ini(text@) == Ok::<Sections, Seq<char>>(sections_of(doc)),
            Err(complaint) => parsed_ini(text@) == Err::<Sections, Seq<char>>(complaint@),
        },
{
    match Ini::load_from_str(text) {
        Ok(doc) => Ok(doc),
        Err(e) => Err(e.to_string()),
    }
}

/// Calls `Ini::section`, which looks the name up among the section keys and
/// answers with the first section of that name. The contract claims that the
/// answer is `Some` exactly when a section of that name exists.
#[verifier::external_body]
pub(crate) fn contains_section(doc: &Ini, name: &str) -> (r: bool)
    ensures
        r == has_section(sections_of(*doc), name@),
{
    doc.section(Some(name)).is_some()
}

/// Calls `Ini::section_mut` and, on the section it hands out, `Properties::insert`.
/// `section_mut` yields the first section of that name. `insert` appends the new
/// pair to the section's entry list and then removes every entry that the key
/// had before, so the pair ends up last. Without such a section nothing changes.
#[verifier::external_body]
pub(crate) fn insert_in_section(doc: &mut Ini, name: &str, key: &str, value: &str)
    ensures
        sections_of(*final(doc)) == set_in_section(sections_of(*old(doc)), name@, key@, value@),
{
    if let Some(properties) = doc.section_mut(Some(name)) {
        properties.insert(key, value);
    }
}

/// Calls `Ini::write_to` on a byte vector, which cannot fail to take the bytes.
/// The contract names the bytes after the sections alone: the writer walks the
/// general section and then the named ones in order and reads nothing else.
#[verifier::external_body]
pub(crate) fn render(doc: &Ini) -> (bytes: Vec<u8>)
    ensures
        bytes@ == rendered_ini(sections_of(*doc)),
{
    let mut bytes = Vec::new();
    let _ = doc.write_to(&mut bytes);
    bytes
}

} // verus!
