//! String properties from the package manifest: the table
//! `package.metadata.winres` of a `Cargo.toml`.

use vstd::prelude::*;
use crate::text::texts;
use crate::textmap::{put, Entries, TextMap};

verus! {

/// An item of a TOML document, as far as the library reads it: texts and
/// tables in full, every other value as `Other`. Where a key occurs twice in
/// a table, the first entry counts.
#[derive(Debug, PartialEq)]
pub enum Item {
    Text(String),
    Table(Vec<(String, Item)>),
    Other,
}

/// `toml::Value`, a value of a document as the `toml` crate holds it. The
/// library hands such a value on and never looks inside.
#[verifier::external_type_specification]
#[verifier::external_body]
pub struct ExTomlValue(toml::Value);

/// The document that the `toml` crate reads from `text`: what
/// `str::parse::<toml::Value>` returns, with strings as `Text`, tables as
/// `Table` and all other values as `Other`. `None` where the text is no TOML
/// document.
pub uninterp spec fn toml_document(text: Seq<char>) -> Option<Item>;

/// Turns a `toml::Value` into an `Item`, variant by variant: a string and a
/// table keep what they hold, a table entry by entry in the order in which
/// `toml::map::Map::into_iter` hands them out; numbers, booleans, dates and
/// arrays become `Other`. Nothing is claimed of the result: it serves
/// `parse_document`, which names what comes out of the two together.
#[verifier::external_body]
fn lower(value: toml::Value) -> Item {
    match value {
        toml::Value::String(text) => Item::Text(text),
        toml::Value::Table(table) => Item::Table(
            table.into_iter().map(|(key, item)| (key, lower(item))).collect(),
        ),
        _ => Item::Other,
    }
}

/// Reads a TOML document with `str::parse::<toml::Value>`, which is
/// `toml::from_str`. The result depends on the text alone, and it is
/// `toml_document` of the text: a name for what the `toml` crate reads.
/// Nothing about the name is proved here.
#[verifier::external_body]
fn parse_document(text: &str) -> (document: Option<Item>)
    ensures
        document == toml_document(text@),
{
    match text.parse::<toml::Value>() {
        Ok(value) => Some(lower(value)),
        Err(_) => None,
    }
}

/// The index of the first of `entries` under `key`.
pub open spec fn entry_position(entries: Seq<(String, Item)>, key: Seq<char>) -> Option<int>
    decreases entries.len(),
{
    if entries.len() == 0 {
        None
    } else if entries[0].0@ == key {
        Some(0)
    } else {
        match entry_position(entries.drop_first(), key) {
            Some(i) => Some(i + 1),
            None => None,
        }
    }
}

/// Where the first `n` entries have other keys and the `n`-th, if there is
/// one, has `key`, the position of `key` is `n`, or none at the end.
pub proof fn lemma_entry_position(entries: Seq<(String, Item)>, key: Seq<char>, n: int)
    requires
        0 <= n <= entries.len(),
        forall|k: int| 0 <= k < n ==> (#[trigger] entries[k]).0@ != key,
        n == entries.len() || entries[n].0@ == key,
    ensures
        entry_position(entries, key) == (if n < entries.len() {
            Some(n)
        } else {
            None
        }),
    decreases n,
{
    if n > 0 {
        let rest = entries.drop_first();
        assert forall|k: int| 0 <= k < n - 1 implies (#[trigger] rest[k]).0@ != key by {
            assert(rest[k] == entries[k + 1]);
        }
        lemma_entry_position(rest, key, n - 1);
    }
}

impl Item {
    /// The value that a table holds under `key`; none for a key that the
    /// table lacks, and none for a value that is no table.
    pub open spec fn child(self, key: Seq<char>) -> Option<Item> {
        match self {
            Item::Table(entries) => match entry_position(entries@, key) {
                Some(i) => Some(entries@[i].1),
                None => None,
            },
            _ => None,
        }
    }

    /// The value under `key`, if this is a table that has the key.
    pub fn get(&self, key: &str) -> (found: Option<&Item>)
        ensures
            match found {
                Some(value) => self.child(key@) == Some(*value),
                None => self.child(key@) is None,
            },
    {
        match self {
            Item::Table(entries) => {
                let wanted = key.to_owned();
                let mut i: usize = 0;
                while i < entries.len()
                    invariant
                        i <= entries@.len(),
                        wanted@ == key@,
                        *self == Item::Table(*entries),
                        forall|k: int| 0 <= k < i ==> (#[trigger] entries@[k]).0@ != key@,
                    decreases entries@.len() - i,
                {
                    if entries[i].0 == wanted {
                        proof {
                            lemma_entry_position(entries@, key@, i as int);
                        }
                        return Some(&entries[i].1);
                    }
                    i += 1;
                }
                proof {
                    lemma_entry_position(entries@, key@, i as int);
                }
                None
            },
            _ => None,
        }
    }
}

/// What became of the search for the table `package.metadata.winres`.
#[derive(PartialEq, Eq, Structural, Debug, Clone, Copy)]
pub enum MetadataStatus {
    /// The table was found and its strings were taken over.
    Applied,
    /// The text is no TOML document.
    ParseError,
    /// The document has no `package`.
    NoPackage,
    /// `package` has no `metadata`.
    NoMetadata,
    /// `package.metadata` has no `winres`.
    NoWinres,
    /// `package.metadata.winres` is no table.
    NotATable,
}

/// What a document says about string properties: the entries of the table
/// `package.metadata.winres`, or the reason it has none.
pub open spec fn winres_section(document: Item) -> Result<Seq<(String, Item)>, MetadataStatus> {
    match document.child("package"@) {
        None => Err(MetadataStatus::NoPackage),
        Some(package) => match package.child("metadata"@) {
            None => Err(MetadataStatus::NoMetadata),
            Some(metadata) => match metadata.child("winres"@) {
                None => Err(MetadataStatus::NoWinres),
                Some(Item::Table(entries)) => Ok(entries@),
                Some(_) => Err(MetadataStatus::NotATable),
            },
        },
    }
}

/// The properties after the texts among `entries` were put into them, entry
/// by entry. An entry that holds no text changes nothing.
pub open spec fn overridden(properties: Entries, entries: Seq<(String, Item)>) -> Entries
    decreases entries.len(),
{
    if entries.len() == 0 {
        properties
    } else {
        let before = overridden(properties, entries.drop_last());
        match entries.last().1 {
            Item::Text(text) => put(before, entries.last().0@, text@),
            _ => before,
        }
    }
}

/// The keys of the entries that hold no text, in order.
pub open spec fn skipped_keys(entries: Seq<(String, Item)>) -> Seq<Seq<char>>
    decreases entries.len(),
{
    if entries.len() == 0 {
        Seq::empty()
    } else {
        let before = skipped_keys(entries.drop_last());
        match entries.last().1 {
            Item::Text(_) => before,
            _ => before.push(entries.last().0@),
        }
    }
}

/// The status that goes with a document.
pub open spec fn status_of(document: Option<Item>) -> MetadataStatus {
    match document {
        None => MetadataStatus::ParseError,
        Some(value) => match winres_section(value) {
            Ok(_) => MetadataStatus::Applied,
            Err(status) => status,
        },
    }
}

/// The properties that a document leaves of `properties`: with the texts of
/// its table `package.metadata.winres` put into them, or unchanged where it
/// has no such table.
pub open spec fn with_metadata(properties: Entries, document: Option<Item>) -> Entries {
    match document {
        None => properties,
        Some(value) => match winres_section(value) {
            Ok(entries) => overridden(properties, entries),
            Err(_) => properties,
        },
    }
}

/// The keys that a document has in `package.metadata.winres` with a value
/// that is no text.
pub open spec fn skipped_by(document: Option<Item>) -> Seq<Seq<char>> {
    match document {
        None => Seq::empty(),
        Some(value) => match winres_section(value) {
            Ok(entries) => skipped_keys(entries),
            Err(_) => Seq::empty(),
        },
    }
}

/// How the metadata of a package manifest was applied.
#[derive(Debug)]
pub struct MetadataReport {
    /// Whether the table was found, or why not.
    pub status: MetadataStatus,
    /// The keys of the table whose values are no strings. They were left
    /// out.
    pub skipped: Vec<String>,
}

fn apply_entries(properties: &mut TextMap, entries: &Vec<(String, Item)>) -> (skipped: Vec<String>)
    ensures
        final(properties)@ == overridden(old(properties)@, entries@),
        texts(skipped@) == skipped_keys(entries@),
{
    let mut skipped: Vec<String> = Vec::new();
    let mut i: usize = 0;
    proof {
        assert(entries@.take(0) =~= Seq::<(String, Item)>::empty());
        assert(texts(skipped@) =~= skipped_keys(entries@.take(0)));
    }
    while i < entries.len()
        invariant
            i <= entries@.len(),
            properties@ == overridden(old(properties)@, entries@.take(i as int)),
            texts(skipped@) == skipped_keys(entries@.take(i as int)),
        decreases entries@.len() - i,
    {
        let ghost next = entries@.take(i + 1);
        let ghost before = skipped@;
        proof {
            assert(next.drop_last() =~= entries@.take(i as int));
            assert(next.last() == entries@[i as int]);
        }
        match &entries[i].1 {
            Item::Text(text) => {
                properties.insert(entries[i].0.as_str(), text.as_str());
            },
            _ => {
                skipped.push(entries[i].0.clone());
                proof {
                    assert(texts(skipped@) =~= texts(before).push(entries@[i as int].0@));
                }
            },
        }
        i += 1;
    }
    proof {
        assert(entries@.take(entries@.len() as int) =~= entries@);
    }
    skipped
}

/// Puts the strings that a parsed package manifest holds in its table
/// `package.metadata.winres` into `properties`. A string under a name that
/// the properties hold replaces the value there. Entries that are no
/// strings are skipped and reported. Without such a table the properties
/// stay as they are, and the status says what was missing.
pub fn apply_metadata(properties: &mut TextMap, document: Option<&Item>) -> (report: MetadataReport)
    ensures
        final(properties)@ == with_metadata(old(properties)@, match document {
            Some(value) => Some(*value),
            None => None,
        }),
        report.status == status_of(match document {
            Some(value) => Some(*value),
            None => None,
        }),
        texts(report.skipped@) == skipped_by(match document {
            Some(value) => Some(*value),
            None => None,
        }),
{
    let mut status = MetadataStatus::ParseError;
    let mut skipped: Vec<String> = Vec::new();
    proof {
        assert(texts(skipped@) =~= Seq::<Seq<char>>::empty());
    }
    if let Some(value) = document {
        match value.get("package") {
            None => {
                status = MetadataStatus::NoPackage;
            },
            Some(package) => match package.get("metadata") {
                None => {
                    status = MetadataStatus::NoMetadata;
                },
                Some(metadata) => match metadata.get("winres") {
                    None => {
                        status = MetadataStatus::NoWinres;
                    },
                    Some(Item::Table(entries)) => {
                        skipped = apply_entries(properties, entries);
                        status = MetadataStatus::Applied;
                    },
                    Some(_) => {
                        status = MetadataStatus::NotATable;
                    },
                },
            },
        }
    }
    MetadataReport { status, skipped }
}

/// Reads the text of a package manifest and puts the strings of its table
/// `package.metadata.winres` into `properties`, as `apply_metadata` does with
/// the document that the text holds.
pub fn parse_cargo_toml(properties: &mut TextMap, cargo_toml: &str) -> (report: MetadataReport)
    ensures
        final(properties)@ == with_metadata(old(properties)@, toml_document(cargo_toml@)),
        report.status == status_of(toml_document(cargo_toml@)),
        texts(report.skipped@) == skipped_by(toml_document(cargo_toml@)),
{
    let document = parse_document(cargo_toml);
    apply_metadata(properties, document.as_ref())
}

} // verus!
