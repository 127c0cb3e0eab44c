//! Rendering a filename stem from a token pattern and a canonical record,
//! and planning a collision-safe rename. Everything here is a pure
//! decision: the surrounding program probes the filesystem for the one
//! fact the plan needs (does the destination already exist?) and carries
//! the plan out.

use vstd::prelude::*;
use vstd::string::*;
use crate::paths::{extension_of, parent_dir, join_path, with_ext, parent_dir_of, join, compose};
use crate::record::{opt_view, Record};
use crate::text::{
    replace, replace_chars, trim, trim_chars, str_eq, push_char, padded4, u64_to_padded4,
    lemma_dec_digits_len, lemma_replace_absent, lemma_replace_eliminates,
    lemma_replace_preserves_absent, lemma_trim_preserves_absent, lemma_trim_idempotent,
};
use crate::utils::get_extension;

verus! {

/// Why no new filename could be produced.
#[derive(Clone, Copy, Debug, PartialEq, Eq, Structural)]
pub enum RenameError {
    /// The rename pattern was empty.
    EmptyPattern,
    /// Substitution and sanitization left nothing of the pattern.
    EmptyRenderedName,
}

/// One token substitution step: a token whose record key is present is
/// replaced by the key's value; a token whose key is literally absent is
/// left as it stands.
pub open spec fn apply_one(p: Seq<char>, tok: Seq<char>, o: Option<Seq<char>>) -> Seq<char> {
    match o {
        Some(v) => replace_chars(p, tok, v),
        None => p,
    }
}

/// The pattern with each metadata token substituted, token by token in the
/// fixed order `%t`, `%a`, `%p`, `%i`, `%y`.
pub open spec fn apply_tokens(p: Seq<char>, r: Record) -> Seq<char> {
    apply_one(
        apply_one(
            apply_one(
                apply_one(
                    apply_one(p, seq!['%', 't'], opt_view(r.title)),
                    seq!['%', 'a'],
                    opt_view(r.author),
                ),
                seq!['%', 'p'],
                opt_view(r.publisher),
            ),
            seq!['%', 'i'],
            opt_view(r.identifier),
        ),
        seq!['%', 'y'],
        opt_view(r.year),
    )
}

/// Filesystem sanitization of a rendered stem, in order: `/` becomes `-`,
/// `:` becomes ` -`, every `.` is removed, and surrounding whitespace is
/// trimmed.
pub open spec fn sanitize_chars(s: Seq<char>) -> Seq<char> {
    trim_chars(
        replace_chars(
            replace_chars(replace_chars(s, seq!['/'], seq!['-']), seq![':'], seq![' ', '-']),
            seq!['.'],
            Seq::<char>::empty(),
        ),
    )
}

/// The candidate filename stem: the pattern with tokens substituted, then
/// sanitized.
pub open spec fn rendered_stem(p: Seq<char>, r: Record) -> Seq<char> {
    sanitize_chars(apply_tokens(p, r))
}

/// Sanitization is idempotent: sanitizing an already-sanitized stem
/// yields the same stem.
pub proof fn lemma_sanitize_idempotent(s: Seq<char>)
    ensures
        sanitize_chars(sanitize_chars(s)) == sanitize_chars(s),
{
    let t1 = replace_chars(s, seq!['/'], seq!['-']);
    let t2 = replace_chars(t1, seq![':'], seq![' ', '-']);
    let t3 = replace_chars(t2, seq!['.'], Seq::<char>::empty());
    let t = trim_chars(t3);
    assert(seq!['-'][0] == '-');
    assert(!seq!['-'].contains('/'));
    assert(!seq!['-'].contains(':'));
    assert(seq![' ', '-'][0] == ' ' && seq![' ', '-'][1] == '-');
    assert(!seq![' ', '-'].contains('/'));
    assert(!seq![' ', '-'].contains(':'));
    assert(!Seq::<char>::empty().contains('/'));
    assert(!Seq::<char>::empty().contains(':'));
    assert(!Seq::<char>::empty().contains('.'));
    lemma_replace_eliminates(s, '/', seq!['-']);
    lemma_replace_preserves_absent(t1, ':', seq![' ', '-'], '/');
    lemma_replace_eliminates(t1, ':', seq![' ', '-']);
    lemma_replace_preserves_absent(t2, '.', Seq::<char>::empty(), '/');
    lemma_replace_preserves_absent(t2, '.', Seq::<char>::empty(), ':');
    lemma_replace_eliminates(t2, '.', Seq::<char>::empty());
    lemma_trim_preserves_absent(t3, '/');
    lemma_trim_preserves_absent(t3, ':');
    lemma_trim_preserves_absent(t3, '.');
    lemma_replace_absent(t, '/', seq!['-']);
    lemma_replace_absent(t, ':', seq![' ', '-']);
    lemma_replace_absent(t, '.', Seq::<char>::empty());
    lemma_trim_idempotent(t3);
}

/// One exec token substitution step, exactly as [`apply_one`] describes.
fn apply_token(s: String, tok: &str, o: &Option<String>) -> (r: String)
    requires
        tok@.len() > 0,
    ensures
        r@ == apply_one(s@, tok@, opt_view(*o)),
{
    match o {
        Some(v) => replace(s.as_str(), tok, v.as_str()),
        None => s,
    }
}

/// Render a candidate filename stem from a pattern and a record: token
/// substitution, then sanitization, exactly as [`rendered_stem`]
/// describes. A token whose record key is absent stays verbatim. An empty
/// pattern and a pattern whose rendering sanitizes away to nothing are
/// refused, each with its own error.
pub fn render_filename(pattern: &str, tags: &Record) -> (r: Result<String, RenameError>)
    ensures
        (r == Err::<String, RenameError>(RenameError::EmptyPattern)) <==> pattern@.len() == 0,
        (r == Err::<String, RenameError>(RenameError::EmptyRenderedName)) <==> (pattern@.len() > 0
            && rendered_stem(pattern@, *tags).len() == 0),
        r matches Ok(s) ==> s@ == rendered_stem(pattern@, *tags) && s@.len() > 0,
        pattern@.len() > 0 && rendered_stem(pattern@, *tags).len() > 0 ==> r matches Ok(_),
{
    let n = pattern.unicode_len();
    if n == 0 {
        return Err(RenameError::EmptyPattern);
    }
    proof {
        reveal_strlit("%t");
        reveal_strlit("%a");
        reveal_strlit("%p");
        reveal_strlit("%i");
        reveal_strlit("%y");
        reveal_strlit("/");
        reveal_strlit("-");
        reveal_strlit(":");
        reveal_strlit(" -");
        reveal_strlit(".");
        reveal_strlit("");
        assert("%t"@ =~= seq!['%', 't']);
        assert("%a"@ =~= seq!['%', 'a']);
        assert("%p"@ =~= seq!['%', 'p']);
        assert("%i"@ =~= seq!['%', 'i']);
        assert("%y"@ =~= seq!['%', 'y']);
        assert("/"@ =~= seq!['/']);
        assert("-"@ =~= seq!['-']);
        assert(":"@ =~= seq![':']);
        assert(" -"@ =~= seq![' ', '-']);
        assert("."@ =~= seq!['.']);
        assert(""@ =~= Seq::<char>::empty());
    }
    let s1 = apply_token(String::from_str(pattern), "%t", &tags.title);
    let s2 = apply_token(s1, "%a", &tags.author);
    let s3 = apply_token(s2, "%p", &tags.publisher);
    let s4 = apply_token(s3, "%i", &tags.identifier);
    let s5 = apply_token(s4, "%y", &tags.year);
    let s6 = replace(s5.as_str(), "/", "-");
    let s7 = replace(s6.as_str(), ":", " -");
    let s8 = replace(s7.as_str(), ".", "");
    let out = trim(s8.as_str());
    if out.as_str().unicode_len() == 0 {
        return Err(RenameError::EmptyRenderedName);
    }
    Ok(out)
}

/// A rendered rename candidate: the stem, the pieces of the original path
/// it was derived from, and the naive destination before any collision
/// check.
#[derive(Debug)]
pub struct Candidate {
    /// The path of the file being renamed.
    pub original: String,
    /// The rendered, sanitized filename stem.
    pub stem: String,
    /// The original file's extension, lower-cased.
    pub ext: String,
    /// The original file's parent directory.
    pub parent: String,
    /// The would-be destination: the original path itself when the
    /// candidate equals it, else the stem with extension inside the
    /// parent directory.
    pub dest: String,
    /// Whether the composed candidate is textually the original path.
    pub unchanged: bool,
}

impl Candidate {
    /// Internal consistency: each piece is what it claims to be, relative
    /// to the original path and the stem.
    pub open spec fn wf(self) -> bool {
        &&& self.ext@ == extension_of(self.original@)
        &&& self.parent@ == parent_dir(self.original@)
        &&& self.unchanged == (with_ext(self.stem@, self.ext@) == self.original@)
        &&& self.dest@ == (if self.unchanged {
            self.original@
        } else {
            join_path(self.parent@, with_ext(self.stem@, self.ext@))
        })
    }
}

/// Render the stem and compose the naive destination for `filename` under
/// `pattern`. The destination is the stem with the original extension,
/// placed in the original file's parent directory; when the composed name
/// is textually the original path the candidate is marked unchanged.
pub fn candidate_path(filename: &str, tags: &Record, pattern: &str) -> (r: Result<
    Candidate,
    RenameError,
>)
    ensures
        (r == Err::<Candidate, RenameError>(RenameError::EmptyPattern)) <==> pattern@.len() == 0,
        (r == Err::<Candidate, RenameError>(RenameError::EmptyRenderedName)) <==> (pattern@.len()
            > 0 && rendered_stem(pattern@, *tags).len() == 0),
        r matches Ok(c) ==> c.wf() && c.original@ == filename@ && c.stem@ == rendered_stem(
            pattern@,
            *tags,
        ),
        pattern@.len() > 0 && rendered_stem(pattern@, *tags).len() > 0 ==> r matches Ok(_),
{
    let stem = match render_filename(pattern, tags) {
        Ok(s) => s,
        Err(e) => {
            return Err(e);
        },
    };
    let ext = get_extension(filename);
    let parent = parent_dir_of(filename);
    let naive = compose(stem.as_str(), ext.as_str());
    let unchanged = str_eq(naive.as_str(), filename);
    let dest = if unchanged {
        String::from_str(filename)
    } else {
        join(parent.as_str(), naive.as_str())
    };
    Ok(
        Candidate {
            original: String::from_str(filename),
            stem,
            ext,
            parent,
            dest,
            unchanged,
        },
    )
}

/// The stem with the disambiguation suffix: a space, then the uniqueness
/// token zero-padded to at least four digits, in parentheses.
pub open spec fn disamb_stem(stem: Seq<char>, unique: int) -> Seq<char> {
    stem + seq![' ', '('] + padded4(unique) + seq![')']
}

/// A disambiguated stem never composes to the naive destination: the
/// suffix makes it strictly longer, wherever the candidate sits.
pub proof fn lemma_disamb_differs(stem: Seq<char>, ext: Seq<char>, parent: Seq<char>, unique: int)
    requires
        unique >= 0,
    ensures
        join_path(parent, with_ext(disamb_stem(stem, unique), ext)) != join_path(
            parent,
            with_ext(stem, ext),
        ),
{
    lemma_dec_digits_len(unique);
    assert(disamb_stem(stem, unique).len() >= stem.len() + 7);
    assert(with_ext(disamb_stem(stem, unique), ext).len() > with_ext(stem, ext).len());
    assert(join_path(parent, with_ext(disamb_stem(stem, unique), ext)).len() > join_path(
        parent,
        with_ext(stem, ext),
    ).len());
}

/// Build the disambiguated stem, exactly as [`disamb_stem`] describes.
fn disambiguate(stem: &str, unique: u64) -> (r: String)
    ensures
        r@ == disamb_stem(stem@, unique as int),
{
    let mut s = String::from_str(stem);
    push_char(&mut s, ' ');
    push_char(&mut s, '(');
    let p = u64_to_padded4(unique);
    s.append(p.as_str());
    push_char(&mut s, ')');
    proof {
        assert((stem@.push(' ').push('(') + padded4(unique as int)).push(')') =~= disamb_stem(
            stem@,
            unique as int,
        ));
    }
    s
}

/// The outcome of planning one rename.
#[derive(Debug)]
pub struct RenamePlan {
    /// The path of the file being renamed.
    pub source: String,
    /// The effective destination path.
    pub destination: String,
    /// Whether the filesystem rename is to be carried out. False under
    /// dry-run and when the destination is the original path.
    pub perform: bool,
    /// Whether a collision-disambiguation suffix was applied.
    pub disambiguated: bool,
}

/// Turn a candidate into a plan, given the one filesystem fact that
/// matters: whether the naive destination already exists. An unchanged
/// candidate is left alone; an existing destination is disambiguated; a
/// dry run never performs the rename but still reports the path that
/// would have resulted.
pub fn finish_plan(c: &Candidate, dest_exists: bool, unique: u64, dry_run: bool) -> (p: RenamePlan)
    requires
        c.wf(),
    ensures
        p.source@ == c.original@,
        p.perform == (!dry_run && !c.unchanged),
        p.disambiguated == (!c.unchanged && dest_exists),
        c.unchanged ==> p.destination@ == c.original@,
        !c.unchanged && !dest_exists ==> p.destination@ == c.dest@,
        !c.unchanged && dest_exists ==> p.destination@ == join_path(
            c.parent@,
            with_ext(disamb_stem(c.stem@, unique as int), c.ext@),
        ) && p.destination@ != c.dest@,
{
    if c.unchanged {
        RenamePlan {
            source: c.original.clone(),
            destination: c.original.clone(),
            perform: false,
            disambiguated: false,
        }
    } else if dest_exists {
        let stem2 = disambiguate(c.stem.as_str(), unique);
        let naive2 = compose(stem2.as_str(), c.ext.as_str());
        let dest2 = join(c.parent.as_str(), naive2.as_str());
        proof {
            lemma_disamb_differs(c.stem@, c.ext@, c.parent@, unique as int);
        }
        RenamePlan {
            source: c.original.clone(),
            destination: dest2,
            perform: !dry_run,
            disambiguated: true,
        }
    } else {
        RenamePlan {
            source: c.original.clone(),
            destination: c.dest.clone(),
            perform: !dry_run,
            disambiguated: false,
        }
    }
}

/// Plan the rename of `filename` under `pattern` in one step: render the
/// stem, compose the destination, disambiguate a collision, and decide
/// whether the filesystem rename is to be carried out.
pub fn rename_file(
    filename: &str,
    tags: &Record,
    pattern: &str,
    dest_exists: bool,
    unique: u64,
    dry_run: bool,
) -> (r: Result<RenamePlan, RenameError>)
    ensures
        (r == Err::<RenamePlan, RenameError>(RenameError::EmptyPattern)) <==> pattern@.len() == 0,
        (r == Err::<RenamePlan, RenameError>(RenameError::EmptyRenderedName)) <==> (pattern@.len()
            > 0 && rendered_stem(pattern@, *tags).len() == 0),
        pattern@.len() > 0 && rendered_stem(pattern@, *tags).len() > 0 ==> r matches Ok(_),
        r matches Ok(p) ==> ({
            let stem = rendered_stem(pattern@, *tags);
            let ext = extension_of(filename@);
            let naive = with_ext(stem, ext);
            let unchanged = naive == filename@;
            let dest0 = join_path(parent_dir(filename@), naive);
            &&& p.source@ == filename@
            &&& p.perform == (!dry_run && !unchanged)
            &&& p.disambiguated == (!unchanged && dest_exists)
            &&& (unchanged ==> p.destination@ == filename@)
            &&& (!unchanged && !dest_exists ==> p.destination@ == dest0)
            &&& (!unchanged && dest_exists ==> p.destination@ == join_path(
                parent_dir(filename@),
                with_ext(disamb_stem(stem, unique as int), ext),
            ) && p.destination@ != dest0)
        }),
{
    let c = match candidate_path(filename, tags, pattern) {
        Ok(c) => c,
        Err(e) => {
            return Err(e);
        },
    };
    Ok(finish_plan(&c, dest_exists, unique, dry_run))
}

/// Relies on `SystemTime::now` from std: reads the clock. The value
/// depends on the moment of the call, so nothing is promised of it; a
/// clock before the epoch reads as zero.
#[verifier::external_body]
fn now_micros() -> u128 {
    std::time::SystemTime::now()
        .duration_since(std::time::UNIX_EPOCH)
        .map(|d| d.as_micros())
        .unwrap_or(0)
}

/// A uniqueness token for collision disambiguation: the microsecond count
/// of the current time, reduced to at most seven digits.
pub fn get_unique_value() -> (r: u128)
    ensures
        r < 10_000_000,
{
    now_micros() % 10_000_000
}

} // verus!
