//! Year resolution from the canonical date value, extension extraction
//! from a file name, and a small map utility.

use std::collections::HashMap;
use vstd::prelude::*;
use vstd::string::*;
use crate::paths::{base_name, extension_of, find_last, last_index_of, lower_ascii, lower_char, lower_char_exec};
use crate::record::{opt_view, Record};
use crate::text::{push_char, trim, trim_chars};

verus! {

/// A decimal digit.
pub open spec fn is_digit(c: char) -> bool {
    '0' <= c && c <= '9'
}

/// Every character of `s` is a decimal digit.
pub open spec fn all_digits(s: Seq<char>) -> bool {
    forall|i: int| 0 <= i < s.len() ==> is_digit(s[i])
}

/// The characters of `s` before the first occurrence of `c` (all of `s`
/// when `c` is absent).
pub open spec fn prefix_until(s: Seq<char>, c: char) -> Seq<char>
    decreases s.len(),
{
    if s.len() == 0 {
        Seq::<char>::empty()
    } else if s[0] == c {
        Seq::<char>::empty()
    } else {
        seq![s[0]] + prefix_until(s.skip(1), c)
    }
}

/// The year string resolved from a date value, first matching rule first:
/// a four-digit string is already a year; a structured date marked `D:`
/// yields the first four characters (or as many as there are) of the
/// segment between the first and second `:`; a dashed date yields the part
/// before the first `-`; anything else passes through. Except in the
/// first case the result is trimmed of surrounding whitespace.
pub open spec fn year_of(d: Seq<char>) -> Seq<char> {
    if d.len() == 4 && all_digits(d) {
        d
    } else if d.len() >= 2 && d[0] == 'D' && d[1] == ':' {
        let seg = prefix_until(d.skip(2), ':');
        trim_chars(
            if seg.len() <= 4 {
                seg
            } else {
                seg.subrange(0, 4)
            },
        )
    } else if d.contains('-') {
        trim_chars(prefix_until(d, '-'))
    } else {
        trim_chars(d)
    }
}

/// When the first `c` stands at `k` (or `c` is absent and `k` is the
/// length), the prefix before it is `s` up to `k`.
proof fn lemma_prefix_until_scan(s: Seq<char>, c: char, k: int)
    requires
        0 <= k <= s.len(),
        forall|j: int| 0 <= j < k ==> s[j] != c,
        k == s.len() || s[k] == c,
    ensures
        prefix_until(s, c) == s.subrange(0, k),
    decreases k,
{
    if s.len() == 0 {
        assert(s.subrange(0, 0) =~= Seq::<char>::empty());
    } else if s[0] == c {
        assert(k == 0);
        assert(s.subrange(0, 0) =~= Seq::<char>::empty());
    } else {
        assert(k >= 1);
        lemma_prefix_until_scan(s.skip(1), c, k - 1);
        assert(seq![s[0]] + s.skip(1).subrange(0, k - 1) =~= s.subrange(0, k));
    }
}

/// Resolve a year string from a date value, exactly as [`year_of`]
/// describes.
pub fn get_year(date: &str) -> (r: String)
    ensures
        r@ == year_of(date@),
{
    let n = date.unicode_len();
    if n == 4 {
        let mut digits = true;
        let mut i: usize = 0;
        while i < 4
            invariant
                i <= 4,
                n == 4 == date@.len(),
                digits == (forall|j: int| 0 <= j < i ==> is_digit(date@[j])),
            decreases 4 - i,
        {
            let c = date.get_char(i);
            digits = digits && '0' <= c && c <= '9';
            i += 1;
        }
        if digits {
            return String::from_str(date);
        }
    }
    if n >= 2 && date.get_char(0) == 'D' && date.get_char(1) == ':' {
        let mut i: usize = 2;
        while i < n && date.get_char(i) != ':'
            invariant
                2 <= i <= n,
                n == date@.len(),
                forall|j: int| 2 <= j < i ==> date@[j] != ':',
            decreases n - i,
        {
            i += 1;
        }
        proof {
            let rest = date@.skip(2);
            assert(forall|j: int| 0 <= j < i - 2 ==> rest[j] == date@[j + 2]);
            lemma_prefix_until_scan(rest, ':', i - 2);
            assert(rest.subrange(0, i - 2) =~= date@.subrange(2, i as int));
        }
        let take = if i - 2 > 4 {
            4
        } else {
            i - 2
        };
        let sub = date.substring_char(2, 2 + take);
        proof {
            let seg = prefix_until(date@.skip(2), ':');
            if seg.len() > 4 {
                assert(date@.subrange(2, i as int).subrange(0, 4) =~= date@.subrange(2, 6));
            }
        }
        return trim(sub);
    }
    let mut i: usize = 0;
    while i < n && date.get_char(i) != '-'
        invariant
            i <= n,
            n == date@.len(),
            forall|j: int| 0 <= j < i ==> date@[j] != '-',
        decreases n - i,
    {
        i += 1;
    }
    if i < n {
        proof {
            assert(date@.contains('-')) by {
                assert(date@[i as int] == '-');
            }
            lemma_prefix_until_scan(date@, '-', i as int);
        }
        let sub = date.substring_char(0, i);
        return trim(sub);
    }
    proof {
        assert(!date@.contains('-'));
    }
    trim(date)
}

/// The extension of `filename`, lower-cased, with the label `unknown`
/// standing in when the name carries none, exactly as [`extension_of`]
/// describes.
pub fn get_extension(filename: &str) -> (r: String)
    ensures
        r@ == extension_of(filename@),
{
    let n = filename.unicode_len();
    let start = match find_last(filename, '/') {
        Some(i) => i + 1,
        None => 0,
    };
    let name = filename.substring_char(start, n);
    proof {
        assert(filename@.subrange(start as int, n as int) =~= filename@.skip(
            last_index_of(filename@, '/') + 1,
        ));
        assert(name@ == base_name(filename@));
    }
    match find_last(name, '.') {
        None => String::from_str("unknown"),
        Some(k) => {
            if k == 0 {
                String::from_str("unknown")
            } else {
                let m = name.unicode_len();
                let mut out = String::new();
                let mut i: usize = k + 1;
                while i < m
                    invariant
                        k + 1 <= i <= m,
                        m == name@.len(),
                        out@.len() == i - (k + 1),
                        forall|j: int|
                            0 <= j < out@.len() ==> out@[j] == lower_char(name@[k + 1 + j]),
                    decreases m - i,
                {
                    let c = lower_char_exec(name.get_char(i));
                    push_char(&mut out, c);
                    i += 1;
                }
                proof {
                    assert(out@ =~= lower_ascii(name@.skip(k + 1)));
                }
                out
            }
        },
    }
}

/// A fresh, empty tag map.
pub fn new_hashmap() -> (m: HashMap<String, String>)
    ensures
        m@ == Map::<String, String>::empty(),
{
    HashMap::new()
}

/// Enrich a record with its resolved year: a year the provider supplied
/// directly takes precedence; otherwise the year is derived from the date
/// value when one is present. Every other key is left untouched.
pub fn resolve_year(tags: &mut Record)
    ensures
        final (tags).title == old(tags).title,
        final (tags).author == old(tags).author,
        final (tags).description == old(tags).description,
        final (tags).publisher == old(tags).publisher,
        final (tags).date == old(tags).date,
        final (tags).language == old(tags).language,
        final (tags).identifier == old(tags).identifier,
        opt_view(final (tags).year) == match (opt_view(old(tags).year), opt_view(old(tags).date)) {
            (Some(y), _) => Some(y),
            (None, Some(d)) => Some(year_of(d)),
            (None, None) => None::<Seq<char>>,
        },
{
    let derived = match &tags.date {
        Some(d) => Some(get_year(d.as_str())),
        None => None,
    };
    if tags.year.is_none() {
        match derived {
            Some(y) => {
                tags.year = Some(y);
            },
            None => {},
        }
    }
}

} // verus!
