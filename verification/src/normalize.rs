//! The normalizer core: probing a raw provider field bag for a named field,
//! defaulting a missing or empty field by policy, and post-processing the
//! selected value. Format adapters build on these pieces.

use vstd::prelude::*;
use vstd::string::*;
use crate::text::{replace, replace_chars, str_eq, lemma_replace_absent};

verus! {

/// One field of a raw provider bag: a provider-native name and the ordered
/// values the provider returned for it.
#[derive(Debug)]
pub struct RawField {
    pub name: String,
    pub values: Vec<String>,
}

/// The values of the first field named `name`, or `None` when the bag has
/// no such field.
pub open spec fn bag_lookup(bag: Seq<RawField>, name: Seq<char>) -> Option<Seq<Seq<char>>>
    decreases bag.len(),
{
    if bag.len() == 0 {
        None
    } else if bag[0].name@ == name {
        Some(bag[0].values.deep_view())
    } else {
        bag_lookup(bag.skip(1), name)
    }
}

/// What stands in for a field the provider did not supply.
#[derive(Clone, Copy, Debug)]
pub enum MissingPolicy {
    /// The label `Unknown`, as the richer format adapters use.
    UnknownLabel,
    /// The empty string, as the legacy adapters use.
    EmptyString,
}

impl MissingPolicy {
    /// The default value this policy substitutes.
    pub open spec fn spec_default(self) -> Seq<char> {
        match self {
            MissingPolicy::UnknownLabel => "Unknown"@,
            MissingPolicy::EmptyString => Seq::<char>::empty(),
        }
    }

    /// Exec counterpart of [`MissingPolicy::spec_default`].
    pub fn default_value(&self) -> (r: String)
        ensures
            r@ == self.spec_default(),
    {
        match self {
            MissingPolicy::UnknownLabel => String::from_str("Unknown"),
            MissingPolicy::EmptyString => String::new(),
        }
    }
}

/// The first value of the field named `name`, or `default` when the field
/// is absent or carries no value.
pub open spec fn selected_value(bag: Seq<RawField>, name: Seq<char>, default: Seq<char>) -> Seq<
    char,
> {
    match bag_lookup(bag, name) {
        Some(vals) => if vals.len() > 0 {
            vals[0]
        } else {
            default
        },
        None => default,
    }
}

/// `s` with every embedded double quote removed.
pub open spec fn strip_quotes(s: Seq<char>) -> Seq<char> {
    replace_chars(s, seq!['"'], Seq::<char>::empty())
}

/// The normalized value of the field named `name`: selected by
/// [`selected_value`], then stripped of double quotes.
pub open spec fn normalized_value(bag: Seq<RawField>, name: Seq<char>, default: Seq<char>) -> Seq<
    char,
> {
    strip_quotes(selected_value(bag, name, default))
}

/// The first value found probing `n1` then `n2` in priority order: a
/// present first name wins even when it carries no value; only an absent
/// first name lets the second be probed.
pub open spec fn selected_value2(
    bag: Seq<RawField>,
    n1: Seq<char>,
    n2: Seq<char>,
    default: Seq<char>,
) -> Seq<char> {
    match bag_lookup(bag, n1) {
        Some(_) => selected_value(bag, n1, default),
        None => selected_value(bag, n2, default),
    }
}

/// The normalized value of a key probed under two provider names in
/// priority order.
pub open spec fn normalized_value2(
    bag: Seq<RawField>,
    n1: Seq<char>,
    n2: Seq<char>,
    default: Seq<char>,
) -> Seq<char> {
    strip_quotes(selected_value2(bag, n1, n2, default))
}

/// Skipping fields whose names all differ from `name` leaves the lookup
/// unchanged.
proof fn lemma_bag_lookup_skip(bag: Seq<RawField>, name: Seq<char>, i: int)
    requires
        0 <= i <= bag.len(),
        forall|j: int| 0 <= j < i ==> bag[j].name@ != name,
    ensures
        bag_lookup(bag, name) == bag_lookup(bag.skip(i), name),
    decreases i,
{
    if i > 0 {
        assert(bag[0].name@ != name);
        assert(bag.skip(1).skip(i - 1) =~= bag.skip(i));
        lemma_bag_lookup_skip(bag.skip(1), name, i - 1);
    } else {
        assert(bag.skip(0) =~= bag);
    }
}

/// Select the first value of the field named `name` from the bag, falling
/// back to the policy default, exactly as [`selected_value`] describes.
pub fn select_value(bag: &Vec<RawField>, name: &str, policy: MissingPolicy) -> (r: String)
    ensures
        r@ == selected_value(bag@, name@, policy.spec_default()),
{
    let n = bag.len();
    let mut i: usize = 0;
    while i < n
        invariant
            i <= n,
            n == bag@.len(),
            forall|j: int| 0 <= j < i ==> bag@[j].name@ != name@,
        decreases n - i,
    {
        let f = &bag[i];
        if str_eq(f.name.as_str(), name) {
            proof {
                lemma_bag_lookup_skip(bag@, name@, i as int);
                assert(bag@.skip(i as int)[0] == bag@[i as int]);
                assert(bag_lookup(bag@, name@) == Some(bag@[i as int].values.deep_view()));
            }
            if f.values.len() > 0 {
                let v = f.values[0].clone();
                proof {
                    assert(bag@[i as int].values.deep_view()[0] == bag@[i as int].values@[0]@);
                }
                return v;
            } else {
                return policy.default_value();
            }
        }
        i += 1;
    }
    proof {
        lemma_bag_lookup_skip(bag@, name@, n as int);
        assert(bag@.skip(n as int).len() == 0);
    }
    policy.default_value()
}

/// The normalized value of the field named `name`, exactly as
/// [`normalized_value`] describes.
pub fn normalized_field(bag: &Vec<RawField>, name: &str, policy: MissingPolicy) -> (r: String)
    ensures
        r@ == normalized_value(bag@, name@, policy.spec_default()),
{
    let sel = select_value(bag, name, policy);
    proof {
        reveal_strlit("\"");
        assert("\""@ =~= seq!['"']);
        reveal_strlit("");
        assert(""@ =~= Seq::<char>::empty());
    }
    replace(sel.as_str(), "\"", "")
}

/// Probe the field named `n1`, then the field named `n2`, normalizing the
/// winner, exactly as [`normalized_value2`] describes.
pub fn normalized_field2(bag: &Vec<RawField>, n1: &str, n2: &str, policy: MissingPolicy) -> (r:
    String)
    ensures
        r@ == normalized_value2(bag@, n1@, n2@, policy.spec_default()),
{
    if bag_has(bag, n1) {
        normalized_field(bag, n1, policy)
    } else {
        normalized_field(bag, n2, policy)
    }
}

/// Whether the bag holds a field named `name` (exec counterpart of
/// [`bag_lookup`] being some).
pub fn bag_has(bag: &Vec<RawField>, name: &str) -> (r: bool)
    ensures
        r == (bag_lookup(bag@, name@) is Some),
{
    let n = bag.len();
    let mut i: usize = 0;
    while i < n
        invariant
            i <= n,
            n == bag@.len(),
            forall|j: int| 0 <= j < i ==> bag@[j].name@ != name@,
        decreases n - i,
    {
        if str_eq(bag[i].name.as_str(), name) {
            proof {
                lemma_bag_lookup_skip(bag@, name@, i as int);
            }
            return true;
        }
        i += 1;
    }
    proof {
        lemma_bag_lookup_skip(bag@, name@, n as int);
        assert(bag@.skip(n as int).len() == 0);
    }
    false
}

/// A raw field bag with no field named `name` normalizes that key to the
/// policy default, never to an absent value.
pub proof fn lemma_missing_key_defaults(bag: Seq<RawField>, name: Seq<char>, policy: MissingPolicy)
    requires
        bag_lookup(bag, name) is None,
    ensures
        normalized_value(bag, name, policy.spec_default()) == policy.spec_default(),
{
    let d = policy.spec_default();
    match policy {
        MissingPolicy::UnknownLabel => {
            reveal_strlit("Unknown");
            assert("Unknown"@ =~= seq!['U', 'n', 'k', 'n', 'o', 'w', 'n']);
            assert forall|j: int| 0 <= j < d.len() implies d[j] != '"' by {}
            assert(!d.contains('"'));
        },
        MissingPolicy::EmptyString => {
            assert(!d.contains('"'));
        },
    }
    lemma_replace_absent(d, '"', Seq::<char>::empty());
}

} // verus!
