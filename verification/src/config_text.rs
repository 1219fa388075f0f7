//! Reading and writing the one kind of configuration file there is: a TOML
//! document with a table of strings.

use serde::de::{Deserialize, IgnoredAny};
use std::collections::BTreeMap;
use toml::de::{DeTable, Error, ValueDeserializer};
use vstd::prelude::*;
use crate::text_map::{pair_keys, pairs_map, TextMap};
use crate::text::{same, text_option};

verus! {

/// What stands under a key of a document, read in the two ways there are to read it.
#[derive(Debug)]
pub struct TomlEntry {
    pub key: String,
    /// Why the value cannot be passed over, if it cannot.
    pub skipped: Option<String>,
    /// The value as a table of strings, or why it is none.
    pub strings: Result<Vec<(String, String)>, String>,
}

/// A [`TomlEntry`] by what it says.
pub struct TomlShape {
    pub key: Seq<char>,
    pub skipped: Option<Seq<char>>,
    pub strings: Result<Map<Seq<char>, Seq<char>>, Seq<char>>,
}

impl View for TomlEntry {
    type V = TomlShape;

    open spec fn view(&self) -> TomlShape {
        TomlShape {
            key: self.key@,
            skipped: text_option(self.skipped),
            strings: match self.strings {
                Ok(pairs) => Ok(pairs_map(pairs@)),
                Err(reason) => Err(reason@),
            },
        }
    }
}

/// A document by what it says.
pub open spec fn shapes(entries: Seq<TomlEntry>) -> Seq<TomlShape> {
    entries.map_values(|e: TomlEntry| e@)
}

/// No table of strings has a key twice.
pub open spec fn keys_once(entries: Seq<TomlEntry>) -> bool {
    forall|i: int|
        0 <= i < entries.len() ==> ((#[trigger] entries[i]).strings matches Ok(pairs)
            ==> pair_keys(pairs@).no_duplicates())
}

/// What `toml::de::DeTable::parse` makes of a text, its values read as `serde` reads them:
/// the document's entries in their order, or the words of the error.
pub uninterp spec fn toml_document(text: Seq<char>) -> Result<Seq<TomlShape>, Seq<char>>;

/// What `toml::to_string_pretty` writes for a document that holds one table of strings.
pub uninterp spec fn toml_text(name: Seq<char>, table: Map<Seq<char>, Seq<char>>) -> Seq<char>;

/// The document that holds one table of strings and nothing else.
pub open spec fn one_table(name: Seq<char>, table: Map<Seq<char>, Seq<char>>) -> Seq<TomlShape> {
    seq![TomlShape { key: name, skipped: None, strings: Ok(table) }]
}

/// `toml::de::DeTable::parse` on `text`, and on each value of the document what
/// `ValueDeserializer` gives for a value that is passed over and for a table of strings. The
/// result is named, and no key of a table of strings comes out twice. Errors are written
/// with their place in the text.
#[verifier::external_body]
fn parse_document(text: &str) -> (r: Result<Vec<TomlEntry>, String>)
    ensures
        match r {
            Ok(entries) => keys_once(entries@) && toml_document(text@) == Ok::<
                Seq<TomlShape>,
                Seq<char>,
            >(shapes(entries@)),
            Err(e) => toml_document(text@) == Err::<Seq<TomlShape>, Seq<char>>(e@),
        },
{
    let doc = DeTable::parse(text).map_err(|e| e.to_string())?;
    let located = |mut e: Error| {
        e.set_input(Some(text));
        e.to_string()
    };
    let entries = doc.into_inner().into_iter().map(|(key, value)| TomlEntry {
        key: key.into_inner().into_owned(),
        skipped: IgnoredAny::deserialize(ValueDeserializer::from(value.clone())).map_err(located).err(),
        strings: BTreeMap::deserialize(ValueDeserializer::from(value))
            .map(|table: BTreeMap<String, String>| table.into_iter().collect())
            .map_err(located),
    });
    Ok(entries.collect())
}

/// `toml::to_string_pretty` on a document with the one table `name`. A table of strings
/// can always be written, the text is named, and reading it gives the table back.
#[verifier::external_body]
fn print_document(name: &str, pairs: &Vec<(String, String)>) -> (r: Result<String, String>)
    requires
        pair_keys(pairs@).no_duplicates(),
    ensures
        match r {
            Ok(text) => text@ == toml_text(name@, pairs_map(pairs@)) && toml_document(text@) == Ok::<
                Seq<TomlShape>,
                Seq<char>,
            >(one_table(name@, pairs_map(pairs@))),
            Err(_) => false,
        },
{
    let table: BTreeMap<&str, &str> = pairs.iter().map(|(k, v)| (k.as_str(), v.as_str())).collect();
    let file: BTreeMap<&str, BTreeMap<&str, &str>> = BTreeMap::from([(name, table)]);
    toml::to_string_pretty(&file).map_err(|e| e.to_string())
}

/// The table of strings under `name`: empty where there is none. The first entry that can be
/// read neither as that table nor, under another key, be passed over says what is wrong.
pub open spec fn strings_in(doc: Seq<TomlShape>, name: Seq<char>) -> Result<
    Map<Seq<char>, Seq<char>>,
    Seq<char>,
>
    decreases doc.len(),
{
    if doc.len() == 0 {
        Ok(Map::empty())
    } else {
        match strings_in(doc.drop_last(), name) {
            Err(e) => Err(e),
            Ok(found) => if doc.last().key == name {
                doc.last().strings
            } else {
                match doc.last().skipped {
                    Some(e) => Err(e),
                    None => Ok(found),
                }
            },
        }
    }
}

/// What reading the table `name` out of a text gives: its strings, or why not.
pub open spec fn table_read(text: Seq<char>, name: Seq<char>) -> Result<
    Map<Seq<char>, Seq<char>>,
    Seq<char>,
> {
    match toml_document(text) {
        Ok(doc) => strings_in(doc, name),
        Err(e) => Err(e),
    }
}

/// What is wrong with the beginning of a document is wrong with all of it.
proof fn lemma_first_error(doc: Seq<TomlShape>, name: Seq<char>, i: int)
    requires
        0 <= i <= doc.len(),
        strings_in(doc.take(i), name) is Err,
    ensures
        strings_in(doc, name) == strings_in(doc.take(i), name),
    decreases doc.len() - i,
{
    if i < doc.len() {
        assert(doc.take(i + 1).drop_last() =~= doc.take(i));
        lemma_first_error(doc, name, i + 1);
    } else {
        assert(doc.take(i) =~= doc);
    }
}

/// The table of strings under `name` in a parsed document.
pub fn strings_under(entries: Vec<TomlEntry>, name: &str) -> (r: Result<TextMap, String>)
    requires
        keys_once(entries@),
    ensures
        match r {
            Ok(m) => strings_in(shapes(entries@), name@) == Ok::<
                Map<Seq<char>, Seq<char>>,
                Seq<char>,
            >(m@),
            Err(e) => strings_in(shapes(entries@), name@) == Err::<
                Map<Seq<char>, Seq<char>>,
                Seq<char>,
            >(e@),
        },
{
    let ghost doc = shapes(entries@);
    let mut found = TextMap::new();
    let mut i: usize = 0;
    while i < entries.len()
        invariant
            doc == shapes(entries@),
            keys_once(entries@),
            i <= entries@.len(),
            strings_in(doc.take(i as int), name@) == Ok::<Map<Seq<char>, Seq<char>>, Seq<char>>(
                found@,
            ),
        decreases entries@.len() - i,
    {
        let entry = &entries[i];
        proof {
            assert(doc.take(i + 1).drop_last() =~= doc.take(i as int));
            assert(doc.take(i + 1).last() == entry@);
        }
        if same(entry.key.as_str(), name) {
            match &entry.strings {
                Ok(pairs) => {
                    found = TextMap::of(pairs);
                },
                Err(e) => {
                    proof {
                        lemma_first_error(doc, name@, i + 1);
                    }
                    return Err(e.clone());
                },
            }
        } else {
            match &entry.skipped {
                Some(e) => {
                    proof {
                        lemma_first_error(doc, name@, i + 1);
                    }
                    return Err(e.clone());
                },
                None => {},
            }
        }
        i = i + 1;
    }
    assert(doc.take(i as int) =~= doc);
    Ok(found)
}

/// Reads the table `name` out of a text.
pub fn read_table(text: &str, name: &str) -> (r: Result<TextMap, String>)
    ensures
        match r {
            Ok(m) => table_read(text@, name@) == Ok::<Map<Seq<char>, Seq<char>>, Seq<char>>(m@),
            Err(e) => table_read(text@, name@) == Err::<Map<Seq<char>, Seq<char>>, Seq<char>>(e@),
        },
{
    match parse_document(text) {
        Ok(entries) => strings_under(entries, name),
        Err(e) => Err(e),
    }
}

/// Writes a document that holds the table `name`.
pub fn write_table(name: &str, table: &TextMap) -> (r: Result<String, String>)
    ensures
        r is Ok,
        r matches Ok(text) ==> text@ == toml_text(name@, table@) && table_read(text@, name@) == Ok::<
            Map<Seq<char>, Seq<char>>,
            Seq<char>,
        >(table@),
{
    let r = print_document(name, table.pairs());
    proof {
        let doc = one_table(name@, table@);
        assert(doc.last().key == name@);
        assert(doc.drop_last() =~= Seq::<TomlShape>::empty());
        assert(strings_in(doc.drop_last(), name@) is Ok);
    }
    r
}

// ── laws ──────────────────────────────────────────────────────────────────

/// Whether an entry is in order: the one that is looked for is a table of strings, and any
/// other can be passed over.
pub open spec fn in_order(entry: TomlShape, name: Seq<char>) -> bool {
    if entry.key == name {
        entry.strings is Ok
    } else {
        entry.skipped is None
    }
}

proof fn lemma_in_order(doc: Seq<TomlShape>, name: Seq<char>)
    requires
        forall|i: int| 0 <= i < doc.len() ==> in_order(#[trigger] doc[i], name),
    ensures
        strings_in(doc, name) is Ok,
        (forall|i: int| 0 <= i < doc.len() ==> (#[trigger] doc[i]).key != name) ==> strings_in(
            doc,
            name,
        ) == Ok::<Map<Seq<char>, Seq<char>>, Seq<char>>(Map::empty()),
    decreases doc.len(),
{
    if doc.len() > 0 {
        let rest = doc.drop_last();
        assert forall|i: int| 0 <= i < rest.len() implies in_order(#[trigger] rest[i], name) by {
            assert(rest[i] == doc[i]);
        }
        lemma_in_order(rest, name);
        assert(in_order(doc[doc.len() - 1], name));
        if forall|i: int| 0 <= i < doc.len() ==> (#[trigger] doc[i]).key != name {
            assert forall|i: int| 0 <= i < rest.len() implies (#[trigger] rest[i]).key != name by {
                assert(rest[i] == doc[i]);
            }
            assert(doc[doc.len() - 1].key != name);
        }
    }
}

/// A document without the table, whose entries can all be passed over, gives an empty table.
pub proof fn law_a_missing_table_is_empty(doc: Seq<TomlShape>, name: Seq<char>)
    requires
        forall|i: int|
            0 <= i < doc.len() ==> (#[trigger] doc[i]).key != name && doc[i].skipped is None,
    ensures
        strings_in(doc, name) == Ok::<Map<Seq<char>, Seq<char>>, Seq<char>>(Map::empty()),
{
    assert forall|i: int| 0 <= i < doc.len() implies in_order(#[trigger] doc[i], name) by {}
    lemma_in_order(doc, name);
}

/// The table is found wherever it stands, and nothing that can be passed over changes it.
pub proof fn law_the_table_is_found(
    doc: Seq<TomlShape>,
    name: Seq<char>,
    at: int,
    table: Map<Seq<char>, Seq<char>>,
)
    requires
        0 <= at < doc.len(),
        doc[at].key == name,
        doc[at].strings == Ok::<Map<Seq<char>, Seq<char>>, Seq<char>>(table),
        forall|i: int|
            0 <= i < doc.len() && i != at ==> (#[trigger] doc[i]).key != name && doc[i].skipped
                is None,
    ensures
        strings_in(doc, name) == Ok::<Map<Seq<char>, Seq<char>>, Seq<char>>(table),
    decreases doc.len(),
{
    let rest = doc.drop_last();
    if at == doc.len() - 1 {
        assert forall|i: int| 0 <= i < rest.len() implies in_order(#[trigger] rest[i], name) by {
            assert(rest[i] == doc[i]);
        }
        lemma_in_order(rest, name);
    } else {
        assert(rest[at] == doc[at]);
        assert forall|i: int| 0 <= i < rest.len() && i != at implies (#[trigger] rest[i]).key != name
            && rest[i].skipped is None by {
            assert(rest[i] == doc[i]);
        }
        law_the_table_is_found(rest, name, at, table);
        assert(doc[doc.len() - 1].key != name);
    }
}

/// The first entry that is not in order says what is wrong, whatever follows it.
pub proof fn law_the_first_wrong_entry_is_reported(doc: Seq<TomlShape>, name: Seq<char>, at: int)
    requires
        0 <= at < doc.len(),
        forall|i: int| 0 <= i < at ==> in_order(#[trigger] doc[i], name),
        !in_order(doc[at], name),
    ensures
        doc[at].key == name ==> strings_in(doc, name) == Err::<
            Map<Seq<char>, Seq<char>>,
            Seq<char>,
        >(doc[at].strings->Err_0),
        doc[at].key != name ==> strings_in(doc, name) == Err::<
            Map<Seq<char>, Seq<char>>,
            Seq<char>,
        >(doc[at].skipped->0),
{
    let front = doc.take(at);
    assert forall|i: int| 0 <= i < front.len() implies in_order(#[trigger] front[i], name) by {
        assert(front[i] == doc[i]);
    }
    lemma_in_order(front, name);
    assert(doc.take(at + 1).drop_last() =~= front);
    assert(doc.take(at + 1).last() == doc[at]);
    lemma_first_error(doc, name, at + 1);
}

/// Reading a table out of a text follows what the text is as a document; a text that is none
/// says why.
pub proof fn law_reading(text: Seq<char>, name: Seq<char>)
    ensures
        toml_document(text) matches Ok(doc) ==> table_read(text, name) == strings_in(doc, name),
        toml_document(text) matches Err(e) ==> table_read(text, name) == Err::<
            Map<Seq<char>, Seq<char>>,
            Seq<char>,
        >(e),
{
}

/// A document of one table reads back as that table, and as nothing under another name.
pub proof fn law_one_table_reads_back(
    name: Seq<char>,
    table: Map<Seq<char>, Seq<char>>,
    other: Seq<char>,
)
    ensures
        strings_in(one_table(name, table), name) == Ok::<Map<Seq<char>, Seq<char>>, Seq<char>>(
            table,
        ),
        other != name ==> strings_in(one_table(name, table), other) == Ok::<
            Map<Seq<char>, Seq<char>>,
            Seq<char>,
        >(Map::empty()),
{
    let doc = one_table(name, table);
    law_the_table_is_found(doc, name, 0, table);
    if other != name {
        law_a_missing_table_is_empty(doc, other);
    }
}

/// An entry that was read says what it holds.
pub proof fn law_entries(entries: Seq<TomlEntry>, i: int)
    requires
        0 <= i < entries.len(),
    ensures
        shapes(entries).len() == entries.len(),
        shapes(entries)[i].key == entries[i].key@,
        shapes(entries)[i].skipped is Some <==> entries[i].skipped is Some,
        entries[i].skipped matches Some(e) ==> shapes(entries)[i].skipped == Some(e@),
        entries[i].strings matches Ok(pairs) ==> shapes(entries)[i].strings == Ok::<
            Map<Seq<char>, Seq<char>>,
            Seq<char>,
        >(pairs_map(pairs@)),
        entries[i].strings matches Err(e) ==> shapes(entries)[i].strings == Err::<
            Map<Seq<char>, Seq<char>>,
            Seq<char>,
        >(e@),
{
}

} // verus!
