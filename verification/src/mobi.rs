//! The MOBI adapter: maps a raw MOBI metadata bag to the canonical record.
//! MOBI providers expose title, author, description, publisher, isbn and
//! publish date; the format carries no language field here, and a missing
//! field defaults to the empty string, as the legacy adapter did.

use vstd::prelude::*;
use crate::normalize::{
    RawField, MissingPolicy, bag_lookup, normalized_value, normalized_field,
    lemma_missing_key_defaults,
};
use crate::record::{Key, Record};

verus! {

/// Normalize a raw MOBI field bag into the canonical record.
///
/// Every key the format can produce is present in the result; a field the
/// provider did not supply carries the empty-string default instead of
/// being absent.
pub fn get_metadata(bag: &Vec<RawField>) -> (r: Record)
    ensures
        r.spec_get(Key::Title) == Some(normalized_value(bag@, "title"@, Seq::<char>::empty())),
        r.spec_get(Key::Author) == Some(normalized_value(bag@, "author"@, Seq::<char>::empty())),
        r.spec_get(Key::Description) == Some(
            normalized_value(bag@, "description"@, Seq::<char>::empty()),
        ),
        r.spec_get(Key::Publisher) == Some(
            normalized_value(bag@, "publisher"@, Seq::<char>::empty()),
        ),
        r.spec_get(Key::Identifier) == Some(normalized_value(bag@, "isbn"@, Seq::<char>::empty())),
        r.spec_get(Key::Date) == Some(
            normalized_value(bag@, "publish_date"@, Seq::<char>::empty()),
        ),
        r.spec_get(Key::Language) is None,
        r.spec_get(Key::Year) is None,
        bag_lookup(bag@, "title"@) is None ==> r.spec_get(Key::Title) == Some(
            Seq::<char>::empty(),
        ),
        bag_lookup(bag@, "author"@) is None ==> r.spec_get(Key::Author) == Some(
            Seq::<char>::empty(),
        ),
        bag_lookup(bag@, "description"@) is None ==> r.spec_get(Key::Description) == Some(
            Seq::<char>::empty(),
        ),
        bag_lookup(bag@, "publisher"@) is None ==> r.spec_get(Key::Publisher) == Some(
            Seq::<char>::empty(),
        ),
        bag_lookup(bag@, "isbn"@) is None ==> r.spec_get(Key::Identifier) == Some(
            Seq::<char>::empty(),
        ),
        bag_lookup(bag@, "publish_date"@) is None ==> r.spec_get(Key::Date) == Some(
            Seq::<char>::empty(),
        ),
{
    let policy = MissingPolicy::EmptyString;
    let r = Record {
        title: Some(normalized_field(bag, "title", policy)),
        author: Some(normalized_field(bag, "author", policy)),
        description: Some(normalized_field(bag, "description", policy)),
        publisher: Some(normalized_field(bag, "publisher", policy)),
        date: Some(normalized_field(bag, "publish_date", policy)),
        language: None,
        identifier: Some(normalized_field(bag, "isbn", policy)),
        year: None,
    };
    proof {
        if bag_lookup(bag@, "title"@) is None {
            lemma_missing_key_defaults(bag@, "title"@, policy);
        }
        if bag_lookup(bag@, "author"@) is None {
            lemma_missing_key_defaults(bag@, "author"@, policy);
        }
        if bag_lookup(bag@, "description"@) is None {
            lemma_missing_key_defaults(bag@, "description"@, policy);
        }
        if bag_lookup(bag@, "publisher"@) is None {
            lemma_missing_key_defaults(bag@, "publisher"@, policy);
        }
        if bag_lookup(bag@, "isbn"@) is None {
            lemma_missing_key_defaults(bag@, "isbn"@, policy);
        }
        if bag_lookup(bag@, "publish_date"@) is None {
            lemma_missing_key_defaults(bag@, "publish_date"@, policy);
        }
    }
    r
}

} // verus!
