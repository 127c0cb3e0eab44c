//! A string-level model of the few path operations the renamer needs:
//! the file extension, the parent directory, joining a directory with a
//! file name, and attaching an extension to a stem. Paths are plain
//! strings; `/` separates components.

use vstd::prelude::*;
use vstd::string::*;
use crate::text::push_char;

verus! {

/// Index of the last occurrence of `c` in `s`, or `-1` when absent.
pub open spec fn last_index_of(s: Seq<char>, c: char) -> int
    decreases s.len(),
{
    if s.len() == 0 {
        -1
    } else if s[s.len() - 1] == c {
        s.len() - 1
    } else {
        last_index_of(s.drop_last(), c)
    }
}

/// When `c` stands at `i` with no later occurrence, `i` is the last index.
proof fn lemma_last_index_found(s: Seq<char>, c: char, i: int)
    requires
        0 <= i < s.len(),
        s[i] == c,
        forall|j: int| i < j < s.len() ==> s[j] != c,
    ensures
        last_index_of(s, c) == i,
    decreases s.len(),
{
    if i < s.len() - 1 {
        assert(s[s.len() - 1] != c);
        lemma_last_index_found(s.drop_last(), c, i);
    }
}

/// When `c` does not occur, the last index is `-1`.
proof fn lemma_last_index_none(s: Seq<char>, c: char)
    requires
        forall|j: int| 0 <= j < s.len() ==> s[j] != c,
    ensures
        last_index_of(s, c) == -1,
    decreases s.len(),
{
    if s.len() > 0 {
        lemma_last_index_none(s.drop_last(), c);
    }
}

/// Index of the last `c` in `s`, if any (exec counterpart of
/// [`last_index_of`]).
pub fn find_last(s: &str, c: char) -> (r: Option<usize>)
    ensures
        match r {
            Some(i) => i < s@.len() && last_index_of(s@, c) == i,
            None => last_index_of(s@, c) == -1,
        },
{
    let n = s.unicode_len();
    let mut b: usize = n;
    while b > 0
        invariant
            b <= n,
            n == s@.len(),
            forall|j: int| b <= j < n ==> s@[j] != c,
        decreases b,
    {
        if s.get_char(b - 1) == c {
            proof {
                lemma_last_index_found(s@, c, b - 1);
            }
            return Some(b - 1);
        }
        b -= 1;
    }
    proof {
        lemma_last_index_none(s@, c);
    }
    None
}

/// The final path component: everything after the last `/`.
pub open spec fn base_name(p: Seq<char>) -> Seq<char> {
    p.skip(last_index_of(p, '/') + 1)
}

/// ASCII lower-casing of one character, as `to_ascii_lowercase` does.
pub open spec fn lower_char(c: char) -> char {
    if 'A' <= c && c <= 'Z' {
        (((c as u8) + 32) as char)
    } else {
        c
    }
}

/// ASCII lower-casing of a whole string.
pub open spec fn lower_ascii(s: Seq<char>) -> Seq<char> {
    s.map(|i: int, c: char| lower_char(c))
}

/// The file extension of path `p`, ASCII lower-cased: the part of the final
/// component after its last `.`. A component without a `.`, or with one
/// only at the front (a dotfile), has no extension, and the fallback label
/// `unknown` stands in for it.
pub open spec fn extension_of(p: Seq<char>) -> Seq<char> {
    let name = base_name(p);
    let k = last_index_of(name, '.');
    if k <= 0 {
        "unknown"@
    } else {
        lower_ascii(name.skip(k + 1))
    }
}

/// The directory part of `p`: everything before the last `/`, the root `/`
/// kept whole, and empty for a bare file name.
pub open spec fn parent_dir(p: Seq<char>) -> Seq<char> {
    let k = last_index_of(p, '/');
    if k < 0 {
        Seq::<char>::empty()
    } else if k == 0 {
        seq!['/']
    } else {
        p.subrange(0, k)
    }
}

/// `parent` and `name` joined with a single `/`; an empty parent adds no
/// separator.
pub open spec fn join_path(parent: Seq<char>, name: Seq<char>) -> Seq<char> {
    if parent.len() == 0 {
        name
    } else if parent[parent.len() - 1] == '/' {
        parent + name
    } else {
        parent + seq!['/'] + name
    }
}

/// `stem` with `ext` attached after a `.`; an empty extension leaves the
/// stem bare.
pub open spec fn with_ext(stem: Seq<char>, ext: Seq<char>) -> Seq<char> {
    if ext.len() == 0 {
        stem
    } else {
        stem + seq!['.'] + ext
    }
}

/// Exec counterpart of [`lower_char`].
pub fn lower_char_exec(c: char) -> (r: char)
    ensures
        r == lower_char(c),
{
    if 'A' <= c && c <= 'Z' {
        ((c as u8) + 32) as char
    } else {
        c
    }
}

/// The directory part of `p`, exactly as [`parent_dir`] describes.
pub fn parent_dir_of(p: &str) -> (r: String)
    ensures
        r@ == parent_dir(p@),
{
    match find_last(p, '/') {
        None => String::new(),
        Some(k) => {
            if k == 0 {
                proof {
                    reveal_strlit("/");
                    assert("/"@ =~= seq!['/']);
                }
                String::from_str("/")
            } else {
                String::from_str(p.substring_char(0, k))
            }
        },
    }
}

/// Join a directory and a file name, exactly as [`join_path`] describes.
pub fn join(parent: &str, name: &str) -> (r: String)
    ensures
        r@ == join_path(parent@, name@),
{
    let n = parent.unicode_len();
    if n == 0 {
        String::from_str(name)
    } else if parent.get_char(n - 1) == '/' {
        let mut s = String::from_str(parent);
        s.append(name);
        s
    } else {
        let mut s = String::from_str(parent);
        push_char(&mut s, '/');
        s.append(name);
        proof {
            assert(parent@.push('/') + name@ =~= parent@ + seq!['/'] + name@);
        }
        s
    }
}

/// Attach an extension to a stem, exactly as [`with_ext`] describes.
pub fn compose(stem: &str, ext: &str) -> (r: String)
    ensures
        r@ == with_ext(stem@, ext@),
{
    let m = ext.unicode_len();
    if m == 0 {
        String::from_str(stem)
    } else {
        let mut s = String::from_str(stem);
        push_char(&mut s, '.');
        s.append(ext);
        proof {
            assert(stem@.push('.') + ext@ =~= stem@ + seq!['.'] + ext@);
        }
        s
    }
}

} // verus!
