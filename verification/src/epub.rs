//! The EPUB adapter: maps a raw EPUB metadata bag to the canonical record.
//! EPUB providers name their fields in lower case and can produce every
//! canonical key except the derived year; a missing field defaults to the
//! label `Unknown`. The author is probed under `author` first and under
//! the Dublin Core name `creator` second, since providers differ.

use vstd::prelude::*;
use crate::normalize::{
    RawField, MissingPolicy, bag_lookup, normalized_value, normalized_value2, normalized_field,
    normalized_field2, lemma_missing_key_defaults,
};
use crate::record::{Key, Record};

verus! {

/// Normalize a raw EPUB field bag into the canonical record.
///
/// Every key the format can produce is present in the result; a field the
/// provider did not supply, or supplied without a value, carries the
/// default label instead of being absent.
pub fn get_metadata(bag: &Vec<RawField>) -> (r: Record)
    ensures
        r.spec_get(Key::Title) == Some(normalized_value(bag@, "title"@, "Unknown"@)),
        r.spec_get(Key::Author) == Some(normalized_value2(bag@, "author"@, "creator"@, "Unknown"@)),
        r.spec_get(Key::Description) == Some(normalized_value(bag@, "description"@, "Unknown"@)),
        r.spec_get(Key::Publisher) == Some(normalized_value(bag@, "publisher"@, "Unknown"@)),
        r.spec_get(Key::Date) == Some(normalized_value(bag@, "date"@, "Unknown"@)),
        r.spec_get(Key::Language) == Some(normalized_value(bag@, "language"@, "Unknown"@)),
        r.spec_get(Key::Identifier) == Some(normalized_value(bag@, "identifier"@, "Unknown"@)),
        r.spec_get(Key::Year) is None,
        bag_lookup(bag@, "title"@) is None ==> r.spec_get(Key::Title) == Some("Unknown"@),
        bag_lookup(bag@, "author"@) is None && bag_lookup(bag@, "creator"@) is None
            ==> r.spec_get(Key::Author) == Some("Unknown"@),
        bag_lookup(bag@, "description"@) is None ==> r.spec_get(Key::Description) == Some(
            "Unknown"@,
        ),
        bag_lookup(bag@, "publisher"@) is None ==> r.spec_get(Key::Publisher) == Some("Unknown"@),
        bag_lookup(bag@, "date"@) is None ==> r.spec_get(Key::Date) == Some("Unknown"@),
        bag_lookup(bag@, "language"@) is None ==> r.spec_get(Key::Language) == Some("Unknown"@),
        bag_lookup(bag@, "identifier"@) is None ==> r.spec_get(Key::Identifier) == Some(
            "Unknown"@,
        ),
{
    let policy = MissingPolicy::UnknownLabel;
    let r = Record {
        title: Some(normalized_field(bag, "title", policy)),
        author: Some(normalized_field2(bag, "author", "creator", policy)),
        description: Some(normalized_field(bag, "description", policy)),
        publisher: Some(normalized_field(bag, "publisher", policy)),
        date: Some(normalized_field(bag, "date", policy)),
        language: Some(normalized_field(bag, "language", policy)),
        identifier: Some(normalized_field(bag, "identifier", policy)),
        year: None,
    };
    proof {
        if bag_lookup(bag@, "title"@) is None {
            lemma_missing_key_defaults(bag@, "title"@, policy);
        }
        if bag_lookup(bag@, "author"@) is None && bag_lookup(bag@, "creator"@) is None {
            lemma_missing_key_defaults(bag@, "creator"@, policy);
        }
        if bag_lookup(bag@, "description"@) is None {
            lemma_missing_key_defaults(bag@, "description"@, policy);
        }
        if bag_lookup(bag@, "publisher"@) is None {
            lemma_missing_key_defaults(bag@, "publisher"@, policy);
        }
        if bag_lookup(bag@, "date"@) is None {
            lemma_missing_key_defaults(bag@, "date"@, policy);
        }
        if bag_lookup(bag@, "language"@) is None {
            lemma_missing_key_defaults(bag@, "language"@, policy);
        }
        if bag_lookup(bag@, "identifier"@) is None {
            lemma_missing_key_defaults(bag@, "identifier"@, policy);
        }
    }
    r
}

} // verus!
