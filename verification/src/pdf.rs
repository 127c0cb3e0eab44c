//! The PDF adapter: maps the fields of a PDF information dictionary to the
//! canonical record. The dictionary has no publisher field of its own; the
//! vendor `producer` entry stands in for it and is cleaned of the source
//! encoding's artifacts (`/` name markers and `#20` escaped spaces). The
//! year comes straight from the structured creation date when the provider
//! supplies one; this structured year takes precedence over derivation
//! from a date string, which the format does not carry.

use vstd::prelude::*;
use crate::normalize::{
    RawField, MissingPolicy, bag_lookup, normalized_value, normalized_field,
    lemma_missing_key_defaults,
};
use crate::record::{Key, Record};
use crate::text::{replace, replace_chars, dec_digits, u64_to_dec};

verus! {

/// The canonical publisher value of a PDF bag: the normalized `producer`
/// field with `/` characters stripped and each literal `#20` replaced by a
/// space.
pub open spec fn pdf_publisher_value(bag: Seq<RawField>) -> Seq<char> {
    replace_chars(
        replace_chars(normalized_value(bag, "producer"@, "Unknown"@), seq!['/'], Seq::<char>::empty()),
        seq!['#', '2', '0'],
        seq![' '],
    )
}

/// Normalize a raw PDF information dictionary into the canonical record.
///
/// `structured_year` is the year of the dictionary's structured creation
/// date, when present. Every key the format can produce is present in the
/// result; a missing field carries the label `Unknown` instead of being
/// absent.
pub fn get_metadata(bag: &Vec<RawField>, structured_year: Option<u16>) -> (r: Record)
    ensures
        r.spec_get(Key::Title) == Some(normalized_value(bag@, "title"@, "Unknown"@)),
        r.spec_get(Key::Author) == Some(normalized_value(bag@, "author"@, "Unknown"@)),
        r.spec_get(Key::Description) == Some(normalized_value(bag@, "subject"@, "Unknown"@)),
        r.spec_get(Key::Publisher) == Some(pdf_publisher_value(bag@)),
        r.spec_get(Key::Year) == Some(
            match structured_year {
                Some(y) => dec_digits(y as int),
                None => "Unknown"@,
            },
        ),
        r.spec_get(Key::Date) is None,
        r.spec_get(Key::Language) is None,
        r.spec_get(Key::Identifier) is None,
        bag_lookup(bag@, "title"@) is None ==> r.spec_get(Key::Title) == Some("Unknown"@),
        bag_lookup(bag@, "author"@) is None ==> r.spec_get(Key::Author) == Some("Unknown"@),
        bag_lookup(bag@, "subject"@) is None ==> r.spec_get(Key::Description) == Some("Unknown"@),
{
    let policy = MissingPolicy::UnknownLabel;
    let publisher = {
        let nv = normalized_field(bag, "producer", policy);
        proof {
            reveal_strlit("/");
            assert("/"@ =~= seq!['/']);
            reveal_strlit("");
            assert(""@ =~= Seq::<char>::empty());
            reveal_strlit("#20");
            assert("#20"@ =~= seq!['#', '2', '0']);
            reveal_strlit(" ");
            assert(" "@ =~= seq![' ']);
        }
        let s1 = replace(nv.as_str(), "/", "");
        replace(s1.as_str(), "#20", " ")
    };
    let year = match structured_year {
        Some(y) => u64_to_dec(y as u64),
        None => String::from_str("Unknown"),
    };
    let r = Record {
        title: Some(normalized_field(bag, "title", policy)),
        author: Some(normalized_field(bag, "author", policy)),
        description: Some(normalized_field(bag, "subject", policy)),
        publisher: Some(publisher),
        date: None,
        language: None,
        identifier: None,
        year: Some(year),
    };
    proof {
        if bag_lookup(bag@, "title"@) is None {
            lemma_missing_key_defaults(bag@, "title"@, policy);
        }
        if bag_lookup(bag@, "author"@) is None {
            lemma_missing_key_defaults(bag@, "author"@, policy);
        }
        if bag_lookup(bag@, "subject"@) is None {
            lemma_missing_key_defaults(bag@, "subject"@, policy);
        }
    }
    r
}

} // verus!
