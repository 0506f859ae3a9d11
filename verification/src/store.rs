//! The configuration store: setting keys in one section of a document while
//! everything else in it stays as it is.

use crate::document::{
    contains_section, first_named, has_section, insert_in_section, lemma_first_named,
    lemma_first_named_by_names, parse, parsed_ini, render, rendered_ini, sections_of, set_entry,
    set_in_section, Entries, Sections,
};
use crate::content::{read_text, text_of};
use crate::error::{ConfigError, ConfigFailure};
use ini::Ini;
use vstd::prelude::*;

verus! {

/// One entry of an update: a key and, where the key is to change, its new value.
#[derive(Clone, Copy, Debug)]
pub struct KeyUpdate<'a> {
    pub key: &'a str,
    /// `None` leaves the key as the document has it.
    pub value: Option<&'a str>,
}

impl<'a> View for KeyUpdate<'a> {
    type V = (Seq<char>, Option<Seq<char>>);

    open spec fn view(&self) -> (Seq<char>, Option<Seq<char>>) {
        (
            self.key@,
            match self.value {
                Some(value) => Some(value@),
                None => None,
            },
        )
    }
}

/// The updates as plain values, in order.
pub open spec fn pending(updates: Seq<KeyUpdate>) -> Seq<(Seq<char>, Option<Seq<char>>)> {
    updates.map_values(|u: KeyUpdate| u@)
}

/// The entries of a section after the updates were applied in order. An update
/// without a value changes nothing.
pub open spec fn apply_to_entries(
    entries: Entries,
    updates: Seq<(Seq<char>, Option<Seq<char>>)>,
) -> Entries
    decreases updates.len(),
{
    if updates.len() == 0 {
        entries
    } else {
        let before = apply_to_entries(entries, updates.drop_last());
        match updates.last().1 {
            Some(value) => set_entry(before, updates.last().0, value),
            None => before,
        }
    }
}

/// The value that the updates leave a key with: that of the last update of
/// this key that carries one. `None` where the updates do not write the key.
pub open spec fn last_written(
    updates: Seq<(Seq<char>, Option<Seq<char>>)>,
    key: Seq<char>,
) -> Option<Seq<char>>
    decreases updates.len(),
{
    if updates.len() == 0 {
        None
    } else if updates.last().0 == key && updates.last().1 is Some {
        updates.last().1
    } else {
        last_written(updates.drop_last(), key)
    }
}

/// The test that the updates do not write the key of an entry.
pub open spec fn unwritten(updates: Seq<(Seq<char>, Option<Seq<char>>)>) -> spec_fn(
    (Seq<char>, Seq<char>),
) -> bool {
    |e: (Seq<char>, Seq<char>)| last_written(updates, e.0) is None
}

/// The sections after the updates were applied to the first section called
/// `name`. Every other section is as before.
pub open spec fn apply_updates(
    sections: Sections,
    name: Seq<char>,
    updates: Seq<(Seq<char>, Option<Seq<char>>)>,
) -> Sections {
    match first_named(sections, name) {
        Some(i) => sections.update(i, (sections[i].0, apply_to_entries(sections[i].1, updates))),
        None => sections,
    }
}

/// Applying one more update is setting its key in what the earlier ones left.
proof fn lemma_apply_one_more(
    sections: Sections,
    name: Seq<char>,
    updates: Seq<(Seq<char>, Option<Seq<char>>)>,
)
    requires
        updates.len() > 0,
    ensures
        apply_updates(sections, name, updates) == (match updates.last().1 {
            Some(value) => set_in_section(
                apply_updates(sections, name, updates.drop_last()),
                name,
                updates.last().0,
                value,
            ),
            None => apply_updates(sections, name, updates.drop_last()),
        }),
{
    let before = apply_updates(sections, name, updates.drop_last());
    lemma_first_named(sections, name);
    match first_named(sections, name) {
        Some(i) => {
            lemma_first_named_by_names(sections, before, name);
        },
        None => {},
    }
}

/// Sets each key that comes with a value in the first section called `name`,
/// in the order of `updates`. Fails, and leaves the document as it was, exactly
/// when it has no section of that name.
pub fn update_section(doc: &mut Ini, name: &str, updates: &[KeyUpdate]) -> (r: Result<
    (),
    ConfigError,
>)
    ensures
        r is Ok <==> has_section(sections_of(*old(doc)), name@),
        r is Ok ==> sections_of(*final(doc)) == apply_updates(
            sections_of(*old(doc)),
            name@,
            pending(updates@),
        ),
        r matches Err(e) ==> e@ == ConfigFailure::SectionNotFound(name@) && sections_of(
            *final(doc),
        ) == sections_of(*old(doc)),
{
    if !contains_section(doc, name) {
        return Err(ConfigError::SectionNotFound(name.to_owned()));
    }
    proof {
        lemma_first_named(sections_of(*doc), name@);
        assert(apply_updates(sections_of(*doc), name@, pending(updates@).take(0)) =~= sections_of(
            *doc,
        ));
    }
    let mut done: usize = 0;
    while done < updates.len()
        invariant
            done <= updates.len(),
            sections_of(*doc) == apply_updates(
                sections_of(*old(doc)),
                name@,
                pending(updates@).take(done as int),
            ),
        decreases updates.len() - done,
    {
        let update = &updates[done];
        match update.value {
            Some(value) => insert_in_section(doc, name, update.key, value),
            None => {},
        }
        proof {
            let all = pending(updates@);
            let next = all.take(done + 1);
            assert(next.drop_last() == all.take(done as int));
            assert(next.last() == update@);
            lemma_apply_one_more(sections_of(*old(doc)), name@, next);
        }
        done += 1;
    }
    proof {
        assert(pending(updates@).take(done as int) == pending(updates@));
    }
    Ok(())
}

/// The message of a load failure for content that is not text.
pub open spec fn not_text() -> Seq<char> {
    "stream did not contain valid UTF-8"@
}

/// The document that a file with this content holds, where it holds one.
pub open spec fn document_of(content: Seq<u8>) -> Option<Sections> {
    match text_of(content) {
        Some(text) => match parsed_ini(text) {
            Ok(sections) => Some(sections),
            Err(_) => None,
        },
        None => None,
    }
}

/// What `rewrite` returns for a file with this content: the bytes of the
/// updated document, or the failure.
pub open spec fn rewritten(
    content: Seq<u8>,
    name: Seq<char>,
    updates: Seq<(Seq<char>, Option<Seq<char>>)>,
) -> Result<Seq<u8>, ConfigFailure> {
    match text_of(content) {
        None => Err(ConfigFailure::Load(not_text())),
        Some(text) => match parsed_ini(text) {
            Err(complaint) => Err(ConfigFailure::Load(complaint)),
            Ok(sections) => if has_section(sections, name) {
                Ok(rendered_ini(apply_updates(sections, name, updates)))
            } else {
                Err(ConfigFailure::SectionNotFound(name))
            },
        },
    }
}

/// Takes the content of a configuration file and returns what the file is to
/// hold after the updates: the content is read as text and parsed, the keys
/// are set in the first section called `name`, and the whole document is
/// written out again.
///
/// Fails with `Load` where the content is not text or not an INI document,
/// and with `SectionNotFound` where the document has no such section. On a
/// failure there is nothing to store.
pub fn rewrite(content: &[u8], name: &str, updates: &[KeyUpdate]) -> (r: Result<
    Vec<u8>,
    ConfigError,
>)
    ensures
        match r {
            Ok(bytes) => rewritten(content@, name@, pending(updates@)) == Ok::<
                Seq<u8>,
                ConfigFailure,
            >(bytes@),
            Err(e) => rewritten(content@, name@, pending(updates@)) == Err::<
                Seq<u8>,
                ConfigFailure,
            >(e@),
        },
{
    let text = match read_text(content) {
        Some(text) => text,
        None => {
            return Err(ConfigError::Load("stream did not contain valid UTF-8".to_owned()));
        },
    };
    let mut doc = match parse(text) {
        Ok(doc) => doc,
        Err(complaint) => {
            return Err(ConfigError::Load(complaint));
        },
    };
    match update_section(&mut doc, name, updates) {
        Ok(()) => Ok(render(&doc)),
        Err(e) => Err(e),
    }
}

} // verus!
