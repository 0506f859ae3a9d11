//! What holds of every update: which entries it changes, which it leaves
//! alone, and that applying it a second time changes nothing more.

use crate::document::{
    entries_of, first_named, has_key, has_other_key, has_section, lemma_first_named,
    lemma_first_named_by_names, lookup, rendered_ini, set_entry, Entries, Sections,
};
use crate::service::{version_updates, URL_KEY, VERSION_KEY, VERSION_SECTION};
use crate::store::{
    apply_to_entries, apply_updates, document_of, last_written, rewritten, unwritten,
};
use vstd::prelude::*;

verus! {

type Entry = (Seq<char>, Seq<char>);

type Updates = Seq<(Seq<char>, Option<Seq<char>>)>;

/// Filtering after a push: the pushed entry stays exactly when it meets the test.
proof fn lemma_filter_push(a: Entries, x: Entry, p: spec_fn(Entry) -> bool)
    ensures
        a.push(x).filter(p) == if p(x) {
            a.filter(p).push(x)
        } else {
            a.filter(p)
        },
{
    reveal(Seq::filter);
    assert(a.push(x).drop_last() =~= a);
}

/// Two tests that agree on every entry keep the same entries.
proof fn lemma_filter_same(a: Entries, p: spec_fn(Entry) -> bool, q: spec_fn(Entry) -> bool)
    requires
        forall|i: int| 0 <= i < a.len() ==> p(#[trigger] a[i]) == q(a[i]),
    ensures
        a.filter(p) == a.filter(q),
    decreases a.len(),
{
    reveal(Seq::filter);
    if a.len() > 0 {
        lemma_filter_same(a.drop_last(), p, q);
    }
}

/// Filtering by one test and then by another is filtering by both at once.
proof fn lemma_filter_twice(
    a: Entries,
    p: spec_fn(Entry) -> bool,
    q: spec_fn(Entry) -> bool,
    both: spec_fn(Entry) -> bool,
)
    requires
        forall|i: int| 0 <= i < a.len() ==> both(#[trigger] a[i]) == (p(a[i]) && q(a[i])),
    ensures
        a.filter(p).filter(q) == a.filter(both),
    decreases a.len(),
{
    reveal(Seq::filter);
    if a.len() > 0 {
        let front = a.drop_last();
        lemma_filter_twice(front, p, q, both);
        if p(a.last()) {
            lemma_filter_push(front.filter(p), a.last(), q);
        }
    }
}

/// A test that no entry meets keeps nothing.
proof fn lemma_filter_none(a: Entries, p: spec_fn(Entry) -> bool)
    requires
        forall|i: int| 0 <= i < a.len() ==> !p(#[trigger] a[i]),
    ensures
        a.filter(p) == Seq::<Entry>::empty(),
    decreases a.len(),
{
    reveal(Seq::filter);
    if a.len() > 0 {
        lemma_filter_none(a.drop_last(), p);
    }
}

/// A test that every entry meets keeps everything.
proof fn lemma_filter_all(a: Entries, p: spec_fn(Entry) -> bool)
    requires
        forall|i: int| 0 <= i < a.len() ==> p(#[trigger] a[i]),
    ensures
        a.filter(p) == a,
    decreases a.len(),
{
    reveal(Seq::filter);
    if a.len() > 0 {
        lemma_filter_all(a.drop_last(), p);
        assert(a.drop_last().push(a.last()) =~= a);
    }
}

/// Setting one key leaves the entries of every other key as they were.
pub proof fn lemma_set_entry_other_key(
    entries: Entries,
    key: Seq<char>,
    value: Seq<char>,
    other: Seq<char>,
)
    requires
        other != key,
    ensures
        entries_of(set_entry(entries, key, value), other) == entries_of(entries, other),
{
    let is_other = has_key(other);
    let not_key = has_other_key(key);
    let kept = entries.filter(not_key);
    lemma_filter_push(kept, (key, value), is_other);
    lemma_filter_twice(entries, not_key, is_other, is_other);
}

/// Setting a key leaves it with exactly one entry, which holds the value.
pub proof fn lemma_set_entry_same_key(entries: Entries, key: Seq<char>, value: Seq<char>)
    ensures
        entries_of(set_entry(entries, key, value), key) == seq![(key, value)],
        lookup(set_entry(entries, key, value), key) == Some(value),
{
    let is_key = has_key(key);
    let not_key = has_other_key(key);
    let never = |e: Entry| false;
    let kept = entries.filter(not_key);
    lemma_filter_push(kept, (key, value), is_key);
    lemma_filter_twice(entries, not_key, is_key, never);
    lemma_filter_none(entries, never);
    assert(Seq::<Entry>::empty().push((key, value)) =~= seq![(key, value)]);
}

/// A key that the updates do not write keeps its entries, values and order.
pub proof fn lemma_key_left_alone(entries: Entries, updates: Updates, key: Seq<char>)
    requires
        last_written(updates, key) is None,
    ensures
        entries_of(apply_to_entries(entries, updates), key) == entries_of(entries, key),
        lookup(apply_to_entries(entries, updates), key) == lookup(entries, key),
    decreases updates.len(),
{
    if updates.len() > 0 {
        let before = apply_to_entries(entries, updates.drop_last());
        lemma_key_left_alone(entries, updates.drop_last(), key);
        match updates.last().1 {
            Some(value) => {
                lemma_set_entry_other_key(before, updates.last().0, value, key);
            },
            None => {},
        }
    }
}

/// A key that the updates write ends with exactly one entry: the value of the
/// last update that carries one for it.
pub proof fn lemma_key_set(entries: Entries, updates: Updates, key: Seq<char>)
    requires
        last_written(updates, key) is Some,
    ensures
        entries_of(apply_to_entries(entries, updates), key) == seq![
            (key, last_written(updates, key).unwrap()),
        ],
        lookup(apply_to_entries(entries, updates), key) == last_written(updates, key),
    decreases updates.len(),
{
    let before = apply_to_entries(entries, updates.drop_last());
    match updates.last().1 {
        Some(value) => {
            if updates.last().0 == key {
                lemma_set_entry_same_key(before, key, value);
            } else {
                lemma_key_set(entries, updates.drop_last(), key);
                lemma_set_entry_other_key(before, updates.last().0, value, key);
            }
        },
        None => {
            lemma_key_set(entries, updates.drop_last(), key);
        },
    }
}

/// Updates without a value change no entry.
pub proof fn lemma_no_values_no_change(entries: Entries, updates: Updates)
    requires
        forall|i: int| 0 <= i < updates.len() ==> (#[trigger] updates[i]).1 is None,
    ensures
        apply_to_entries(entries, updates) == entries,
    decreases updates.len(),
{
    if updates.len() > 0 {
        lemma_no_values_no_change(entries, updates.drop_last());
    }
}

/// Applied to a section without entries, the updates leave only keys that
/// they write.
proof fn lemma_fresh_entries_are_written(updates: Updates)
    ensures
        apply_to_entries(Seq::empty(), updates).filter(unwritten(updates)) == Seq::<Entry>::empty(),
    decreases updates.len(),
{
    let nothing = Seq::<Entry>::empty();
    let keep = unwritten(updates);
    if updates.len() == 0 {
        lemma_filter_none(nothing, keep);
    } else {
        let front = updates.drop_last();
        let before = apply_to_entries(nothing, front);
        let kept_before = unwritten(front);
        lemma_fresh_entries_are_written(front);
        match updates.last().1 {
            Some(value) => {
                let key = updates.last().0;
                let others = has_other_key(key);
                lemma_filter_push(before.filter(others), (key, value), keep);
                lemma_filter_twice(before, others, keep, keep);
                lemma_filter_twice(before, kept_before, keep, keep);
                lemma_filter_none(nothing, keep);
            },
            None => {
                lemma_filter_same(before, keep, kept_before);
            },
        }
    }
}

/// The shape of an updated section: first the entries of the keys that the
/// updates do not write, in the order they had, then what the updates leave
/// of the keys they write.
pub proof fn lemma_apply_shape(entries: Entries, updates: Updates)
    ensures
        apply_to_entries(entries, updates) == entries.filter(unwritten(updates))
            + apply_to_entries(Seq::empty(), updates),
    decreases updates.len(),
{
    let nothing = Seq::<Entry>::empty();
    let keep = unwritten(updates);
    if updates.len() == 0 {
        lemma_filter_all(entries, keep);
        assert(entries + nothing =~= entries);
    } else {
        let front = updates.drop_last();
        let kept_before = unwritten(front);
        let fresh_before = apply_to_entries(nothing, front);
        lemma_apply_shape(entries, front);
        match updates.last().1 {
            Some(value) => {
                let key = updates.last().0;
                let others = has_other_key(key);
                Seq::filter_distributes_over_add(entries.filter(kept_before), fresh_before, others);
                lemma_filter_twice(entries, kept_before, others, keep);
                assert((entries.filter(keep) + fresh_before.filter(others)).push((key, value))
                    =~= entries.filter(keep) + fresh_before.filter(others).push((key, value)));
            },
            None => {
                lemma_filter_same(entries, keep, kept_before);
            },
        }
    }
}

/// The entries of the keys that the updates do not write stay as they were,
/// in values and in order.
pub proof fn lemma_unwritten_keep_order(entries: Entries, updates: Updates)
    ensures
        apply_to_entries(entries, updates).filter(unwritten(updates)) == entries.filter(
            unwritten(updates),
        ),
{
    let keep = unwritten(updates);
    let fresh = apply_to_entries(Seq::empty(), updates);
    lemma_apply_shape(entries, updates);
    lemma_fresh_entries_are_written(updates);
    Seq::filter_distributes_over_add(entries.filter(keep), fresh, keep);
    lemma_filter_twice(entries, keep, keep, keep);
    assert(entries.filter(keep) + Seq::<Entry>::empty() =~= entries.filter(keep));
}

/// Applying the same updates a second time changes nothing more.
pub proof fn lemma_apply_twice(entries: Entries, updates: Updates)
    ensures
        apply_to_entries(apply_to_entries(entries, updates), updates) == apply_to_entries(
            entries,
            updates,
        ),
{
    let once = apply_to_entries(entries, updates);
    lemma_apply_shape(entries, updates);
    lemma_apply_shape(once, updates);
    lemma_unwritten_keep_order(entries, updates);
}

/// An update touches one section at most: the document keeps its length and
/// the names of its sections, the first section of the given name gets the
/// updated entries, and every other section is as before. Without a section
/// of that name the document is unchanged.
pub proof fn lemma_update_frame(sections: Sections, name: Seq<char>, updates: Updates)
    ensures
        apply_updates(sections, name, updates).len() == sections.len(),
        forall|j: int|
            0 <= j < sections.len() ==> (#[trigger] apply_updates(sections, name, updates)[j]).0
                == sections[j].0,
        forall|j: int|
            0 <= j < sections.len() && first_named(sections, name) != Some(j)
                ==> #[trigger] apply_updates(sections, name, updates)[j] == sections[j],
        first_named(sections, name) matches Some(i) ==> apply_updates(sections, name, updates)[i].1
            == apply_to_entries(sections[i].1, updates),
        !has_section(sections, name) ==> apply_updates(sections, name, updates) == sections,
        first_named(apply_updates(sections, name, updates), name) == first_named(sections, name),
{
    lemma_first_named(sections, name);
    lemma_first_named_by_names(sections, apply_updates(sections, name, updates), name);
}

/// Updating a document twice with the same updates gives the document that
/// one update gives.
pub proof fn lemma_update_twice(sections: Sections, name: Seq<char>, updates: Updates)
    ensures
        apply_updates(apply_updates(sections, name, updates), name, updates) == apply_updates(
            sections,
            name,
            updates,
        ),
{
    let once = apply_updates(sections, name, updates);
    lemma_first_named(sections, name);
    lemma_update_frame(sections, name, updates);
    match first_named(sections, name) {
        Some(i) => {
            lemma_apply_twice(sections[i].1, updates);
            assert(apply_updates(once, name, updates) =~= once);
        },
        None => {},
    }
}

/// Rewriting a file twice with the same updates stores what one rewrite
/// stores, provided that the file of the first rewrite reads back as the
/// document that was written into it.
pub proof fn lemma_rewrite_twice(content: Seq<u8>, name: Seq<char>, updates: Updates)
    ensures
        ({
            let once = rewritten(content, name, updates);
            &&& once is Ok ==> document_of(content) is Some
            &&& match once {
                Ok(stored) => document_of(stored) == Some(
                    apply_updates(document_of(content).unwrap(), name, updates),
                ) ==> rewritten(stored, name, updates) == once,
                Err(_) => true,
            }
        }),
{
    match document_of(content) {
        Some(sections) => {
            lemma_update_twice(sections, name, updates);
            lemma_update_frame(sections, name, updates);
            lemma_first_named(sections, name);
            lemma_first_named(apply_updates(sections, name, updates), name);
        },
        None => {},
    }
}

/// The version key and the URL key are two keys.
pub proof fn lemma_keys_differ()
    ensures
        VERSION_KEY@ != URL_KEY@,
{
    reveal_strlit("T3000Version");
    reveal_strlit("T3000_INSTALL_URL");
    assert(VERSION_KEY@.len() != URL_KEY@.len());
}

/// What a request writes: the URL key where it carries a URL, the version
/// key where it carries a version, and no other key.
pub proof fn lemma_request_writes(
    version: Option<Seq<char>>,
    url: Option<Seq<char>>,
    key: Seq<char>,
)
    ensures
        last_written(version_updates(version, url), key) == if key == URL_KEY@ && url is Some {
            url
        } else if key == VERSION_KEY@ && version is Some {
            version
        } else {
            None
        },
{
    let both = version_updates(version, url);
    let first = both.drop_last();
    assert(first =~= seq![(VERSION_KEY@, version)]);
    assert(first.drop_last() =~= Seq::empty());
    reveal_with_fuel(last_written, 3);
}

/// A request with a version and without a URL: the version key of the
/// `Version` section becomes the version, and the URL key keeps its entries.
pub proof fn lemma_version_only(sections: Sections, version: Seq<char>)
    requires
        has_section(sections, VERSION_SECTION@),
    ensures
        ({
            let i = first_named(sections, VERSION_SECTION@).unwrap();
            let after = apply_updates(
                sections,
                VERSION_SECTION@,
                version_updates(Some(version), None),
            );
            &&& lookup(after[i].1, VERSION_KEY@) == Some(version)
            &&& entries_of(after[i].1, VERSION_KEY@) == seq![(VERSION_KEY@, version)]
            &&& lookup(after[i].1, URL_KEY@) == lookup(sections[i].1, URL_KEY@)
            &&& entries_of(after[i].1, URL_KEY@) == entries_of(sections[i].1, URL_KEY@)
        }),
{
    let updates = version_updates(Some(version), None);
    let i = first_named(sections, VERSION_SECTION@).unwrap();
    lemma_first_named(sections, VERSION_SECTION@);
    lemma_update_frame(sections, VERSION_SECTION@, updates);
    lemma_keys_differ();
    lemma_request_writes(Some(version), None, VERSION_KEY@);
    lemma_request_writes(Some(version), None, URL_KEY@);
    lemma_key_set(sections[i].1, updates, VERSION_KEY@);
    lemma_key_left_alone(sections[i].1, updates, URL_KEY@);
}

/// A request with a URL and without a version: the URL key of the `Version`
/// section becomes the URL, and the version key keeps its entries.
pub proof fn lemma_url_only(sections: Sections, url: Seq<char>)
    requires
        has_section(sections, VERSION_SECTION@),
    ensures
        ({
            let i = first_named(sections, VERSION_SECTION@).unwrap();
            let after = apply_updates(sections, VERSION_SECTION@, version_updates(None, Some(url)));
            &&& lookup(after[i].1, URL_KEY@) == Some(url)
            &&& entries_of(after[i].1, URL_KEY@) == seq![(URL_KEY@, url)]
            &&& lookup(after[i].1, VERSION_KEY@) == lookup(sections[i].1, VERSION_KEY@)
            &&& entries_of(after[i].1, VERSION_KEY@) == entries_of(sections[i].1, VERSION_KEY@)
        }),
{
    let updates = version_updates(None, Some(url));
    let i = first_named(sections, VERSION_SECTION@).unwrap();
    lemma_first_named(sections, VERSION_SECTION@);
    lemma_update_frame(sections, VERSION_SECTION@, updates);
    lemma_keys_differ();
    lemma_request_writes(None, Some(url), VERSION_KEY@);
    lemma_request_writes(None, Some(url), URL_KEY@);
    lemma_key_set(sections[i].1, updates, URL_KEY@);
    lemma_key_left_alone(sections[i].1, updates, VERSION_KEY@);
}

/// A request with both fields: both keys of the `Version` section take the
/// given values.
pub proof fn lemma_version_and_url(sections: Sections, version: Seq<char>, url: Seq<char>)
    requires
        has_section(sections, VERSION_SECTION@),
    ensures
        ({
            let i = first_named(sections, VERSION_SECTION@).unwrap();
            let after = apply_updates(
                sections,
                VERSION_SECTION@,
                version_updates(Some(version), Some(url)),
            );
            &&& lookup(after[i].1, VERSION_KEY@) == Some(version)
            &&& entries_of(after[i].1, VERSION_KEY@) == seq![(VERSION_KEY@, version)]
            &&& lookup(after[i].1, URL_KEY@) == Some(url)
            &&& entries_of(after[i].1, URL_KEY@) == seq![(URL_KEY@, url)]
        }),
{
    let updates = version_updates(Some(version), Some(url));
    let i = first_named(sections, VERSION_SECTION@).unwrap();
    lemma_first_named(sections, VERSION_SECTION@);
    lemma_update_frame(sections, VERSION_SECTION@, updates);
    lemma_keys_differ();
    lemma_request_writes(Some(version), Some(url), VERSION_KEY@);
    lemma_request_writes(Some(version), Some(url), URL_KEY@);
    lemma_key_set(sections[i].1, updates, VERSION_KEY@);
    lemma_key_set(sections[i].1, updates, URL_KEY@);
}

/// Whatever a request carries, it changes nothing but the two keys in the
/// first `Version` section: every other section is as before, and in that
/// section every other key keeps its entries, values and order.
pub proof fn lemma_request_leaves_the_rest(
    sections: Sections,
    version: Option<Seq<char>>,
    url: Option<Seq<char>>,
)
    ensures
        ({
            let after = apply_updates(sections, VERSION_SECTION@, version_updates(version, url));
            &&& after.len() == sections.len()
            &&& forall|j: int|
                0 <= j < sections.len() ==> (#[trigger] after[j]).0 == sections[j].0
            &&& forall|j: int|
                0 <= j < sections.len() && first_named(sections, VERSION_SECTION@) != Some(j)
                    ==> #[trigger] after[j] == sections[j]
            &&& forall|j: int, key: Seq<char>|
                0 <= j < sections.len() && key != VERSION_KEY@ && key != URL_KEY@
                    ==> #[trigger] entries_of(after[j].1, key) == entries_of(sections[j].1, key)
        }),
{
    let updates = version_updates(version, url);
    let after = apply_updates(sections, VERSION_SECTION@, updates);
    lemma_first_named(sections, VERSION_SECTION@);
    lemma_update_frame(sections, VERSION_SECTION@, updates);
    assert forall|j: int, key: Seq<char>|
        0 <= j < sections.len() && key != VERSION_KEY@ && key != URL_KEY@ implies #[trigger] entries_of(
        after[j].1,
        key,
    ) == entries_of(sections[j].1, key) by {
        if first_named(sections, VERSION_SECTION@) == Some(j) {
            lemma_request_writes(version, url, key);
            lemma_key_left_alone(sections[j].1, updates, key);
        }
    }
}

/// A request that carries neither field leaves the document as it is.
pub proof fn lemma_empty_request(sections: Sections)
    ensures
        apply_updates(sections, VERSION_SECTION@, version_updates(None, None)) == sections,
{
    let updates = version_updates(None, None);
    lemma_first_named(sections, VERSION_SECTION@);
    match first_named(sections, VERSION_SECTION@) {
        Some(i) => {
            lemma_no_values_no_change(sections[i].1, updates);
            assert(apply_updates(sections, VERSION_SECTION@, updates) =~= sections);
        },
        None => {},
    }
}

/// Serving the same request twice in a row leaves the document that serving
/// it once leaves.
pub proof fn lemma_request_twice(
    sections: Sections,
    version: Option<Seq<char>>,
    url: Option<Seq<char>>,
)
    ensures
        ({
            let updates = version_updates(version, url);
            let once = apply_updates(sections, VERSION_SECTION@, updates);
            &&& apply_updates(once, VERSION_SECTION@, updates) == once
            &&& rendered_ini(apply_updates(once, VERSION_SECTION@, updates)) == rendered_ini(once)
        }),
{
    lemma_update_twice(sections, VERSION_SECTION@, version_updates(version, url));
}

} // verus!
