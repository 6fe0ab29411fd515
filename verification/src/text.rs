//! Canonical spelling of method names and policy words: surrounding white
//! space removed, ASCII letters in lower case.

use vstd::prelude::*;

verus! {

/// Whether `c` is one of the 25 characters that carry the Unicode
/// `White_Space` property, the ones that `char::is_whitespace` accepts.
pub open spec fn is_white_space(c: char) -> bool {
    let u = c as u32;
    ||| 0x09 <= u <= 0x0d
    ||| u == 0x20
    ||| u == 0x85
    ||| u == 0xa0
    ||| u == 0x1680
    ||| 0x2000 <= u <= 0x200a
    ||| u == 0x2028
    ||| u == 0x2029
    ||| u == 0x202f
    ||| u == 0x205f
    ||| u == 0x3000
}

/// The ASCII lower-case form of `c`: `A`..`Z` move to `a`..`z`, every other
/// character stays.
pub open spec fn ascii_lower(c: char) -> char {
    if 'A' <= c && c <= 'Z' {
        ((c as u32) + 32) as char
    } else {
        c
    }
}

/// `s` without its leading white space.
pub open spec fn trim_start(s: Seq<char>) -> Seq<char>
    decreases s.len(),
{
    if s.len() > 0 && is_white_space(s.first()) {
        trim_start(s.drop_first())
    } else {
        s
    }
}

/// `s` without its trailing white space.
pub open spec fn trim_end(s: Seq<char>) -> Seq<char>
    decreases s.len(),
{
    if s.len() > 0 && is_white_space(s.last()) {
        trim_end(s.drop_last())
    } else {
        s
    }
}

/// `s` without leading and trailing white space.
pub open spec fn trimmed(s: Seq<char>) -> Seq<char> {
    trim_end(trim_start(s))
}

/// `s` with every character in its ASCII lower-case form.
pub open spec fn lowered(s: Seq<char>) -> Seq<char> {
    s.map_values(|c: char| ascii_lower(c))
}

/// The canonical form of a name: trimmed, then lowered.
pub open spec fn canonical(s: Seq<char>) -> Seq<char> {
    lowered(trimmed(s))
}

/// Whether `s` neither starts nor ends with white space.
pub open spec fn is_trimmed(s: Seq<char>) -> bool {
    s.len() > 0 ==> !is_white_space(s.first()) && !is_white_space(s.last())
}

/// Whether `s` holds no upper-case ASCII letter.
pub open spec fn is_lowered(s: Seq<char>) -> bool {
    forall|i: int| 0 <= i < s.len() ==> !('A' <= #[trigger] s[i] && s[i] <= 'Z')
}

/// Assumed of `str::eq`, the `==` of string slices: it tells whether the
/// two slices hold the same characters.
pub assume_specification[ <str as PartialEq>::eq ](a: &str, b: &str) -> (r: bool)
    ensures
        r == (a@ == b@),
;

/// Assumed of `str::trim`: it returns the slice without its leading and
/// trailing characters of the Unicode `White_Space` property, and removes
/// nothing else.
pub assume_specification[ str::trim ](s: &str) -> (r: &str)
    ensures
        r@ == trimmed(s@),
;

/// Assumed of `str::to_ascii_lowercase`: it returns a copy in which `A`..`Z`
/// are replaced by `a`..`z` and every other character is kept.
pub assume_specification[ str::to_ascii_lowercase ](s: &str) -> (r: String)
    ensures
        r@ == lowered(s@),
;

/// The canonical form of `method`.
pub fn normalize(method: &str) -> (r: String)
    ensures
        r@ == canonical(method@),
{
    method.trim().to_ascii_lowercase()
}

/// What `trim_start` returns is a suffix of its argument that does not start
/// with white space.
pub proof fn lemma_trim_start(s: Seq<char>)
    ensures
        trim_start(s).len() <= s.len(),
        trim_start(s) == s.skip(s.len() - trim_start(s).len()),
        trim_start(s).len() > 0 ==> !is_white_space(trim_start(s).first()),
    decreases s.len(),
{
    if s.len() > 0 && is_white_space(s.first()) {
        let rest = s.drop_first();
        lemma_trim_start(rest);
        assert(rest.skip(rest.len() - trim_start(rest).len()) =~= s.skip(
            s.len() - trim_start(rest).len(),
        ));
    } else {
        assert(s.skip(0) =~= s);
    }
}

/// What `trim_end` returns is a prefix of its argument that does not end with
/// white space.
pub proof fn lemma_trim_end(s: Seq<char>)
    ensures
        trim_end(s).len() <= s.len(),
        trim_end(s) == s.take(trim_end(s).len() as int),
        trim_end(s).len() > 0 ==> !is_white_space(trim_end(s).last()),
    decreases s.len(),
{
    if s.len() > 0 && is_white_space(s.last()) {
        let rest = s.drop_last();
        lemma_trim_end(rest);
        assert(rest.take(trim_end(rest).len() as int) =~= s.take(trim_end(rest).len() as int));
    } else {
        assert(s.take(s.len() as int) =~= s);
    }
}

/// A trimmed sequence neither starts nor ends with white space.
pub proof fn lemma_trimmed_is_trimmed(s: Seq<char>)
    ensures
        is_trimmed(trimmed(s)),
{
    let inner = trim_start(s);
    lemma_trim_start(s);
    lemma_trim_end(inner);
    if trimmed(s).len() > 0 {
        assert(trimmed(s).first() == inner.first());
    }
}

/// Trimming leaves alone what neither starts nor ends with white space.
pub proof fn lemma_trim_fixed(s: Seq<char>)
    requires
        is_trimmed(s),
    ensures
        trimmed(s) == s,
{
}

/// Lowering leaves alone what holds no upper-case ASCII letter.
pub proof fn lemma_lower_fixed(s: Seq<char>)
    requires
        is_lowered(s),
    ensures
        lowered(s) == s,
{
    assert(lowered(s) =~= s);
}

/// Lowering keeps the length, turns no character into white space or back,
/// and leaves no upper-case ASCII letter.
pub proof fn lemma_lowered(s: Seq<char>)
    ensures
        lowered(s).len() == s.len(),
        is_lowered(lowered(s)),
        is_trimmed(s) ==> is_trimmed(lowered(s)),
{
}

/// The canonical form is a fixed point: normalizing twice gives what
/// normalizing once gives.
pub proof fn lemma_canonical_idempotent(s: Seq<char>)
    ensures
        canonical(canonical(s)) == canonical(s),
{
    let t = trimmed(s);
    lemma_trimmed_is_trimmed(s);
    lemma_lowered(t);
    lemma_trim_fixed(lowered(t));
    lemma_lowered(lowered(t));
    lemma_lower_fixed(lowered(t));
}

/// A name that is already trimmed and lowered is its own canonical form.
pub proof fn lemma_canonical_fixed(s: Seq<char>)
    requires
        is_trimmed(s),
        is_lowered(s),
    ensures
        canonical(s) == s,
{
    lemma_trim_fixed(s);
    lemma_lower_fixed(s);
}

} // verus!
