//! The canonical metadata record: one format-independent key/value view of
//! an e-book's descriptive metadata. A key a format cannot produce stays
//! absent; a key it can produce is always present after normalization.

use vstd::prelude::*;

verus! {

/// The closed set of canonical metadata keys.
#[derive(Clone, Copy, Debug)]
pub enum Key {
    Title,
    Author,
    Description,
    Publisher,
    Date,
    Language,
    Identifier,
    Year,
}

/// View of an optional string as an optional character sequence.
pub open spec fn opt_view(o: Option<String>) -> Option<Seq<char>> {
    match o {
        Some(s) => Some(s@),
        None => None,
    }
}

/// The canonical metadata record. Each field holds the normalized value for
/// its key, or `None` where the source format does not carry that key.
#[derive(Debug)]
pub struct Record {
    pub title: Option<String>,
    pub author: Option<String>,
    pub description: Option<String>,
    pub publisher: Option<String>,
    pub date: Option<String>,
    pub language: Option<String>,
    pub identifier: Option<String>,
    pub year: Option<String>,
}

impl Record {
    /// The record as a mapping from canonical key to value.
    pub open spec fn spec_get(self, k: Key) -> Option<Seq<char>> {
        match k {
            Key::Title => opt_view(self.title),
            Key::Author => opt_view(self.author),
            Key::Description => opt_view(self.description),
            Key::Publisher => opt_view(self.publisher),
            Key::Date => opt_view(self.date),
            Key::Language => opt_view(self.language),
            Key::Identifier => opt_view(self.identifier),
            Key::Year => opt_view(self.year),
        }
    }

    /// A record with every key absent: the record of a file whose format no
    /// provider recognizes.
    pub fn new() -> (r: Record)
        ensures
            forall|k: Key| r.spec_get(k) is None,
    {
        Record {
            title: None,
            author: None,
            description: None,
            publisher: None,
            date: None,
            language: None,
            identifier: None,
            year: None,
        }
    }

    /// Look a canonical key up in the record.
    pub fn get(&self, k: Key) -> (r: Option<&String>)
        ensures
            match r {
                Some(v) => self.spec_get(k) == Some(v@),
                None => self.spec_get(k) is None,
            },
    {
        match k {
            Key::Title => self.title.as_ref(),
            Key::Author => self.author.as_ref(),
            Key::Description => self.description.as_ref(),
            Key::Publisher => self.publisher.as_ref(),
            Key::Date => self.date.as_ref(),
            Key::Language => self.language.as_ref(),
            Key::Identifier => self.identifier.as_ref(),
            Key::Year => self.year.as_ref(),
        }
    }
}

} // verus!
