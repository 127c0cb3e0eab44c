//! Verified string building blocks: substring matching, literal replacement,
//! and whitespace trimming, all specified over `Seq<char>` views.

use vstd::prelude::*;
use vstd::string::*;

verus! {

/// Relies on `String::push` from std: appends one character to the string.
#[verifier::external_body]
pub(crate) fn push_char(s: &mut String, c: char)
    ensures
        final (s)@ == old(s)@.push(c),
{
    s.push(c)
}

/// Whitespace as trimmed from the ends of rendered names and years:
/// the Unicode `White_Space` characters, the set `str::trim` removes.
pub open spec fn is_space_char(c: char) -> bool {
    c == ' ' || c == '\t' || c == '\n' || c == '\r' || c == '\u{b}' || c == '\u{c}'
        || c == '\u{85}' || c == '\u{a0}' || c == '\u{1680}' || ('\u{2000}' <= c && c
        <= '\u{200a}') || c == '\u{2028}' || c == '\u{2029}' || c == '\u{202f}' || c == '\u{205f}'
        || c == '\u{3000}'
}

/// Exec test for [`is_space_char`].
fn is_space(c: char) -> (b: bool)
    ensures
        b == is_space_char(c),
{
    c == ' ' || c == '\t' || c == '\n' || c == '\r' || c == '\u{b}' || c == '\u{c}'
        || c == '\u{85}' || c == '\u{a0}' || c == '\u{1680}' || ('\u{2000}' <= c && c
        <= '\u{200a}') || c == '\u{2028}' || c == '\u{2029}' || c == '\u{202f}' || c == '\u{205f}'
        || c == '\u{3000}'
}

/// True when `pat` occurs in `s` starting at position `i`.
pub open spec fn occurs_at(s: Seq<char>, pat: Seq<char>, i: int) -> bool {
    0 <= i && i + pat.len() <= s.len() && s.subrange(i, i + pat.len() as int) == pat
}

/// Whether `s` starts with `pat`.
pub open spec fn starts_with(s: Seq<char>, pat: Seq<char>) -> bool {
    occurs_at(s, pat, 0)
}

/// Leftmost, non-overlapping replacement of `pat` by `rep`, scanning left to
/// right; replaced text is not rescanned. Mirrors `str::replace` for a
/// non-empty pattern.
pub open spec fn replace_chars(s: Seq<char>, pat: Seq<char>, rep: Seq<char>) -> Seq<char>
    decreases s.len(),
    when pat.len() > 0
{
    if s.len() < pat.len() {
        s
    } else if starts_with(s, pat) {
        rep + replace_chars(s.skip(pat.len() as int), pat, rep)
    } else {
        seq![s[0]] + replace_chars(s.skip(1), pat, rep)
    }
}

/// True when `s` matches `pat` at position `i` (exec counterpart of `occurs_at`).
fn matches_at(s: &str, i: usize, pat: &str) -> (b: bool)
    requires
        i + pat@.len() <= s@.len(),
    ensures
        b == occurs_at(s@, pat@, i as int),
{
    let n = s.unicode_len();
    let p = pat.unicode_len();
    let mut j: usize = 0;
    while j < p
        invariant
            j <= p,
            p == pat@.len(),
            i + p <= n == s@.len(),
            forall|k: int| 0 <= k < j ==> s@[i + k] == pat@[k],
        decreases p - j,
    {
        if s.get_char(i + j) != pat.get_char(j) {
            assert(s@.subrange(i as int, i + p as int)[j as int] != pat@[j as int]);
            return false;
        }
        j += 1;
    }
    assert(s@.subrange(i as int, i + p as int) =~= pat@);
    true
}

/// Unfolding step for [`replace_chars`] when the pattern does not occur at
/// the front: the first character is kept and the rest is replaced.
proof fn lemma_replace_step_nomatch(s: Seq<char>, pat: Seq<char>, rep: Seq<char>)
    requires
        s.len() > 0,
        pat.len() > 0,
        !starts_with(s, pat),
    ensures
        replace_chars(s, pat, rep) == seq![s[0]] + replace_chars(s.skip(1), pat, rep),
{
    if s.len() < pat.len() {
        assert(s.skip(1).len() < pat.len());
        assert(seq![s[0]] + s.skip(1) =~= s);
    }
}

/// Replace every non-overlapping occurrence of `pat` in `s` by `rep`,
/// scanning left to right, exactly as [`replace_chars`] describes.
pub fn replace(s: &str, pat: &str, rep: &str) -> (r: String)
    requires
        pat@.len() > 0,
    ensures
        r@ == replace_chars(s@, pat@, rep@),
{
    let n = s.unicode_len();
    let p = pat.unicode_len();
    let mut out = String::new();
    let mut i: usize = 0;
    proof {
        assert(s@.skip(0) =~= s@);
        assert(out@ + replace_chars(s@, pat@, rep@) =~= replace_chars(s@, pat@, rep@));
    }
    while i < n
        invariant
            i <= n,
            n == s@.len(),
            p == pat@.len(),
            p > 0,
            replace_chars(s@, pat@, rep@) == out@ + replace_chars(s@.skip(i as int), pat@, rep@),
        decreases n - i,
    {
        let ghost tail = s@.skip(i as int);
        if p <= n - i && matches_at(s, i, pat) {
            proof {
                assert(tail.subrange(0, p as int) =~= s@.subrange(i as int, i + p as int));
                assert(starts_with(tail, pat@));
                assert(tail.skip(p as int) =~= s@.skip(i + p as int));
                assert((out@ + replace_chars(tail, pat@, rep@)) =~= (out@ + rep@) + replace_chars(
                    s@.skip(i + p as int),
                    pat@,
                    rep@,
                ));
            }
            out.append(rep);
            i += p;
        } else {
            proof {
                if p <= n - i {
                    assert(tail.subrange(0, p as int) =~= s@.subrange(i as int, i + p as int));
                    assert(!starts_with(tail, pat@));
                } else {
                    assert(tail.len() < p);
                }
                lemma_replace_step_nomatch(tail, pat@, rep@);
                assert(tail.skip(1) =~= s@.skip(i + 1));
                assert((out@ + replace_chars(tail, pat@, rep@)) =~= out@.push(tail[0])
                    + replace_chars(s@.skip(i + 1), pat@, rep@));
            }
            let c = s.get_char(i);
            push_char(&mut out, c);
            i += 1;
        }
    }
    proof {
        assert(s@.skip(n as int) =~= Seq::<char>::empty());
        assert(out@ + Seq::<char>::empty() =~= out@);
    }
    out
}

/// Character-for-character string equality (exec counterpart of view
/// equality).
pub fn str_eq(a: &str, b: &str) -> (r: bool)
    ensures
        r == (a@ == b@),
{
    let n = a.unicode_len();
    let m = b.unicode_len();
    if n != m {
        return false;
    }
    let r = matches_at(a, 0, b);
    proof {
        assert(a@.subrange(0, m as int) =~= a@);
    }
    r
}

/// Replacing a single character that does not occur leaves the string as it
/// was.
pub proof fn lemma_replace_absent(s: Seq<char>, c: char, rep: Seq<char>)
    requires
        !s.contains(c),
    ensures
        replace_chars(s, seq![c], rep) == s,
    decreases s.len(),
{
    if s.len() > 0 {
        assert(s[0] != c);
        assert(!starts_with(s, seq![c])) by {
            if starts_with(s, seq![c]) {
                assert(s.subrange(0, 1)[0] == s[0]);
                assert(seq![c][0] == c);
            }
        }
        assert(forall|j: int| 0 <= j < s.skip(1).len() ==> s.skip(1)[j] == s[j + 1]);
        assert(!s.skip(1).contains(c));
        lemma_replace_absent(s.skip(1), c, rep);
        assert(seq![s[0]] + s.skip(1) =~= s);
    }
}

/// Single-character replacement eliminates the replaced character, provided
/// the replacement text does not reintroduce it.
pub proof fn lemma_replace_eliminates(s: Seq<char>, c: char, rep: Seq<char>)
    requires
        !rep.contains(c),
    ensures
        !replace_chars(s, seq![c], rep).contains(c),
    decreases s.len(),
{
    if s.len() > 0 {
        if s[0] == c {
            assert(s.subrange(0, 1) =~= seq![c]);
            assert(starts_with(s, seq![c]));
            lemma_replace_eliminates(s.skip(1), c, rep);
            let r = rep + replace_chars(s.skip(1), seq![c], rep);
            assert forall|i: int| 0 <= i < r.len() implies r[i] != c by {
                if i < rep.len() {
                    assert(rep[i] != c);
                }
            }
        } else {
            assert(!starts_with(s, seq![c])) by {
                if starts_with(s, seq![c]) {
                    assert(s.subrange(0, 1)[0] == s[0]);
                    assert(seq![c][0] == c);
                }
            }
            lemma_replace_eliminates(s.skip(1), c, rep);
            let r = seq![s[0]] + replace_chars(s.skip(1), seq![c], rep);
            assert forall|i: int| 0 <= i < r.len() implies r[i] != c by {}
        }
    }
}

/// Single-character replacement introduces no character that was absent from
/// both the string and the replacement text.
pub proof fn lemma_replace_preserves_absent(s: Seq<char>, c: char, rep: Seq<char>, d: char)
    requires
        !s.contains(d),
        !rep.contains(d),
    ensures
        !replace_chars(s, seq![c], rep).contains(d),
    decreases s.len(),
{
    if s.len() > 0 {
        assert(forall|j: int| 0 <= j < s.skip(1).len() ==> s.skip(1)[j] == s[j + 1]);
        assert(!s.skip(1).contains(d));
        lemma_replace_preserves_absent(s.skip(1), c, rep, d);
        if s[0] == c {
            assert(s.subrange(0, 1) =~= seq![c]);
            assert(starts_with(s, seq![c]));
            let r = rep + replace_chars(s.skip(1), seq![c], rep);
            assert forall|i: int| 0 <= i < r.len() implies r[i] != d by {
                if i < rep.len() {
                    assert(rep[i] != d);
                }
            }
        } else {
            assert(!starts_with(s, seq![c])) by {
                if starts_with(s, seq![c]) {
                    assert(s.subrange(0, 1)[0] == s[0]);
                    assert(seq![c][0] == c);
                }
            }
            let r = seq![s[0]] + replace_chars(s.skip(1), seq![c], rep);
            assert(s[0] != d);
            assert forall|i: int| 0 <= i < r.len() implies r[i] != d by {}
        }
    }
}

/// The character `'0' + d`, for a decimal digit `d`.
pub open spec fn digit_char(d: int) -> char {
    if d == 0 {
        '0'
    } else if d == 1 {
        '1'
    } else if d == 2 {
        '2'
    } else if d == 3 {
        '3'
    } else if d == 4 {
        '4'
    } else if d == 5 {
        '5'
    } else if d == 6 {
        '6'
    } else if d == 7 {
        '7'
    } else if d == 8 {
        '8'
    } else {
        '9'
    }
}

/// The decimal digits of `n`, most significant first, without leading zeros
/// (a lone `'0'` for zero).
pub open spec fn dec_digits(n: int) -> Seq<char>
    decreases n,
    when n >= 0
{
    if n < 10 {
        seq![digit_char(n)]
    } else {
        dec_digits(n / 10) + seq![digit_char(n % 10)]
    }
}

/// `dec_digits` of `n`, left-padded with `'0'` to at least four characters,
/// as the formatting width `{:0>4}` produces.
pub open spec fn padded4(n: int) -> Seq<char> {
    let d = dec_digits(n);
    if d.len() == 1 {
        seq!['0', '0', '0'] + d
    } else if d.len() == 2 {
        seq!['0', '0'] + d
    } else if d.len() == 3 {
        seq!['0'] + d
    } else {
        d
    }
}

/// A decimal rendering has at least one digit, so the padded form has at
/// least four characters.
pub proof fn lemma_dec_digits_len(n: int)
    requires
        n >= 0,
    ensures
        dec_digits(n).len() >= 1,
        padded4(n).len() >= 4,
    decreases n,
{
    if n >= 10 {
        lemma_dec_digits_len(n / 10);
    }
}

/// Exec counterpart of [`digit_char`].
fn digit_char_exec(d: u64) -> (c: char)
    requires
        d < 10,
    ensures
        c == digit_char(d as int),
{
    match d {
        0 => '0',
        1 => '1',
        2 => '2',
        3 => '3',
        4 => '4',
        5 => '5',
        6 => '6',
        7 => '7',
        8 => '8',
        _ => '9',
    }
}

/// Render `n` in decimal, exactly as [`dec_digits`] describes.
pub fn u64_to_dec(n: u64) -> (r: String)
    ensures
        r@ == dec_digits(n as int),
    decreases n,
{
    if n < 10 {
        let mut s = String::new();
        push_char(&mut s, digit_char_exec(n));
        proof {
            assert(Seq::<char>::empty().push(digit_char(n as int)) =~= seq![digit_char(n as int)]);
        }
        s
    } else {
        let mut s = u64_to_dec(n / 10);
        push_char(&mut s, digit_char_exec(n % 10));
        proof {
            assert(dec_digits((n / 10) as int).push(digit_char((n % 10) as int)) =~= dec_digits(
                (n / 10) as int,
            ) + seq![digit_char((n % 10) as int)]);
        }
        s
    }
}

/// Render `n` in decimal, left-padded with zeros to at least four
/// characters, exactly as [`padded4`] describes.
pub fn u64_to_padded4(n: u64) -> (r: String)
    ensures
        r@ == padded4(n as int),
{
    let d = u64_to_dec(n);
    let l = d.as_str().unicode_len();
    proof {
        reveal_strlit("000");
        reveal_strlit("00");
        reveal_strlit("0");
        assert("000"@ =~= seq!['0', '0', '0']);
        assert("00"@ =~= seq!['0', '0']);
        assert("0"@ =~= seq!['0']);
    }
    if l == 1 {
        let mut s = String::from_str("000");
        s.append(d.as_str());
        s
    } else if l == 2 {
        let mut s = String::from_str("00");
        s.append(d.as_str());
        s
    } else if l == 3 {
        let mut s = String::from_str("0");
        s.append(d.as_str());
        s
    } else {
        d
    }
}

/// `s` with leading `White_Space` characters removed.
pub open spec fn ltrim(s: Seq<char>) -> Seq<char>
    decreases s.len(),
{
    if s.len() > 0 && is_space_char(s[0]) {
        ltrim(s.skip(1))
    } else {
        s
    }
}

/// `s` with trailing `White_Space` characters removed.
pub open spec fn rtrim(s: Seq<char>) -> Seq<char>
    decreases s.len(),
{
    if s.len() > 0 && is_space_char(s[s.len() - 1]) {
        rtrim(s.drop_last())
    } else {
        s
    }
}

/// `s` with both leading and trailing whitespace removed, as `str::trim`.
pub open spec fn trim_chars(s: Seq<char>) -> Seq<char> {
    rtrim(ltrim(s))
}

/// Dropping any number of all-whitespace leading characters leaves
/// [`ltrim`] unchanged.
proof fn lemma_ltrim_skip(s: Seq<char>, a: int)
    requires
        0 <= a <= s.len(),
        forall|j: int| 0 <= j < a ==> is_space_char(s[j]),
    ensures
        ltrim(s) == ltrim(s.skip(a)),
    decreases a,
{
    if a > 0 {
        assert(is_space_char(s[0]));
        assert(s.skip(1).skip(a - 1) =~= s.skip(a));
        lemma_ltrim_skip(s.skip(1), a - 1);
    } else {
        assert(s.skip(0) =~= s);
    }
}

/// Dropping any number of all-whitespace trailing characters leaves
/// [`rtrim`] unchanged.
proof fn lemma_rtrim_take(s: Seq<char>, b: int)
    requires
        0 <= b <= s.len(),
        forall|j: int| b <= j < s.len() ==> is_space_char(s[j]),
    ensures
        rtrim(s) == rtrim(s.subrange(0, b)),
    decreases s.len() - b,
{
    if b < s.len() {
        assert(is_space_char(s[s.len() - 1]));
        assert(s.drop_last() =~= s.subrange(0, s.len() - 1));
        lemma_rtrim_take(s.subrange(0, s.len() - 1), b);
        assert(s.subrange(0, s.len() - 1).subrange(0, b) =~= s.subrange(0, b));
    } else {
        assert(s.subrange(0, s.len() as int) =~= s);
    }
}

/// [`ltrim`] never changes or reorders characters: its result is a suffix
/// of the input.
proof fn lemma_ltrim_suffix(s: Seq<char>)
    ensures
        ltrim(s).len() <= s.len(),
        ltrim(s) == s.skip(s.len() - ltrim(s).len()),
    decreases s.len(),
{
    if s.len() > 0 && is_space_char(s[0]) {
        lemma_ltrim_suffix(s.skip(1));
        assert(s.skip(1).skip(s.skip(1).len() - ltrim(s.skip(1)).len()) =~= s.skip(
            s.len() - ltrim(s).len(),
        ));
    } else {
        assert(s.skip(0) =~= s);
    }
}

/// [`rtrim`] never changes or reorders characters: its result is a prefix
/// of the input.
proof fn lemma_rtrim_prefix(s: Seq<char>)
    ensures
        rtrim(s).len() <= s.len(),
        rtrim(s) == s.subrange(0, rtrim(s).len() as int),
    decreases s.len(),
{
    if s.len() > 0 && is_space_char(s[s.len() - 1]) {
        assert(s.drop_last() =~= s.subrange(0, s.len() - 1));
        lemma_rtrim_prefix(s.drop_last());
        assert(s.drop_last().subrange(0, rtrim(s).len() as int) =~= s.subrange(
            0,
            rtrim(s).len() as int,
        ));
    } else {
        assert(s.subrange(0, s.len() as int) =~= s);
    }
}

/// After [`ltrim`] no whitespace leads.
proof fn lemma_ltrim_no_leading(s: Seq<char>)
    ensures
        ltrim(s).len() == 0 || !is_space_char(ltrim(s)[0]),
    decreases s.len(),
{
    if s.len() > 0 && is_space_char(s[0]) {
        lemma_ltrim_no_leading(s.skip(1));
    }
}

/// After [`rtrim`] no whitespace trails.
proof fn lemma_rtrim_no_trailing(s: Seq<char>)
    ensures
        rtrim(s).len() == 0 || !is_space_char(rtrim(s)[rtrim(s).len() - 1]),
    decreases s.len(),
{
    if s.len() > 0 && is_space_char(s[s.len() - 1]) {
        lemma_rtrim_no_trailing(s.drop_last());
    }
}

/// Trimming an already-trimmed string changes nothing.
pub proof fn lemma_trim_idempotent(s: Seq<char>)
    ensures
        trim_chars(trim_chars(s)) == trim_chars(s),
{
    let u = ltrim(s);
    let t = rtrim(u);
    lemma_ltrim_no_leading(s);
    lemma_rtrim_prefix(u);
    lemma_rtrim_no_trailing(u);
    if t.len() > 0 {
        assert(t[0] == u.subrange(0, t.len() as int)[0]);
        assert(t[0] == u[0]);
        assert(!is_space_char(t[0]));
    }
    assert(ltrim(t) == t);
    assert(rtrim(t) == t);
}

/// Trimming introduces no character.
pub proof fn lemma_trim_preserves_absent(s: Seq<char>, d: char)
    requires
        !s.contains(d),
    ensures
        !trim_chars(s).contains(d),
{
    let u = ltrim(s);
    let t = rtrim(u);
    lemma_ltrim_suffix(s);
    assert forall|i: int| 0 <= i < u.len() implies u[i] != d by {
        assert(u[i] == s[s.len() - u.len() + i]);
    }
    lemma_rtrim_prefix(u);
    assert forall|i: int| 0 <= i < t.len() implies t[i] != d by {
        assert(t[i] == u.subrange(0, t.len() as int)[i]);
    }
}

/// Remove leading and trailing whitespace, exactly as [`trim_chars`]
/// describes.
pub fn trim(s: &str) -> (r: String)
    ensures
        r@ == trim_chars(s@),
{
    let n = s.unicode_len();
    let mut a: usize = 0;
    while a < n && is_space(s.get_char(a))
        invariant
            a <= n,
            n == s@.len(),
            forall|j: int| 0 <= j < a ==> is_space_char(s@[j]),
        decreases n - a,
    {
        a += 1;
    }
    let mut b: usize = n;
    while b > a && is_space(s.get_char(b - 1))
        invariant
            a <= b <= n,
            n == s@.len(),
            forall|j: int| 0 <= j < a ==> is_space_char(s@[j]),
            forall|j: int| b <= j < n ==> is_space_char(s@[j]),
        decreases b,
    {
        b -= 1;
    }
    proof {
        lemma_ltrim_skip(s@, a as int);
        let t = s@.skip(a as int);
        if a == n {
            assert(t =~= Seq::<char>::empty());
        } else {
            assert(!is_space_char(t[0]));
        }
        assert(ltrim(s@) == t);
        lemma_rtrim_take(t, b - a);
        assert(t.subrange(0, b - a) =~= s@.subrange(a as int, b as int));
        if b > a {
            assert(!is_space_char(s@.subrange(a as int, b as int)[b - a - 1]));
        }
        assert(trim_chars(s@) == s@.subrange(a as int, b as int));
    }
    let cut = s.substring_char(a, b);
    String::from_str(cut)
}

} // verus!
