//! The name sanitiser: turns a service name into a token that is safe in a
//! path segment.

use crate::text::chars_of;
use regex::Regex;
use vstd::prelude::*;

verus! {

/// The characters that a safe name may hold: ASCII letters and digits, `_`
/// and `-`.
pub open spec fn is_name_char(c: char) -> bool {
    ||| 'a' <= c <= 'z'
    ||| 'A' <= c <= 'Z'
    ||| '0' <= c <= '9'
    ||| c == '_'
    ||| c == '-'
}

/// Every character outside the safe set replaced by `_`.
pub open spec fn mask(s: Seq<char>) -> Seq<char> {
    Seq::new(s.len(), |i: int| if is_name_char(s[i]) { s[i] } else { '_' })
}

/// Every run of `_` shortened to a single `_`.
pub open spec fn squeeze(s: Seq<char>) -> Seq<char>
    decreases s.len(),
{
    if s.len() == 0 {
        s
    } else if s.len() >= 2 && s[s.len() - 1] == '_' && s[s.len() - 2] == '_' {
        squeeze(s.drop_last())
    } else {
        squeeze(s.drop_last()).push(s.last())
    }
}

/// Without the `_` at the start.
pub open spec fn trim_start(s: Seq<char>) -> Seq<char>
    decreases s.len(),
{
    if s.len() > 0 && s[0] == '_' {
        trim_start(s.skip(1))
    } else {
        s
    }
}

/// Without the `_` at the end.
pub open spec fn trim_end(s: Seq<char>) -> Seq<char>
    decreases s.len(),
{
    if s.len() > 0 && s.last() == '_' {
        trim_end(s.drop_last())
    } else {
        s
    }
}

/// The lower-case form of an ASCII character.
pub open spec fn lower(c: char) -> char {
    if 'A' <= c <= 'Z' {
        ((c as u8) + 32) as char
    } else {
        c
    }
}

/// The lower-case form of a text of ASCII characters.
pub open spec fn lowered(s: Seq<char>) -> Seq<char> {
    Seq::new(s.len(), |i: int| lower(s[i]))
}

/// The safe name of `s`: masked, squeezed, trimmed and lower-cased.
pub open spec fn safe_name_of(s: Seq<char>) -> Seq<char> {
    lowered(trim_end(trim_start(squeeze(mask(s)))))
}

/// The pattern that matches one character outside the safe set.
pub open spec fn unsafe_char_pattern() -> Seq<char> {
    "[^a-zA-Z0-9_-]"@
}

/// The pattern that matches one run of `_`.
pub open spec fn underscore_run_pattern() -> Seq<char> {
    "_+"@
}

/// Replaces every match of `pattern` in `text` by `replacement`.
///
/// Calls `regex::Regex::new` and `regex::Regex::replace_all`. The contract
/// covers the two patterns of this module and the replacement `_` only. A
/// negated class matches exactly one character that is not in the class, so
/// each such character becomes `_`; `_+` matches each maximal run of `_`, so
/// each run becomes a single `_`. Both patterns compile, and `_` holds no
/// `$`, so nothing is expanded in the replacement.
#[verifier::external_body]
fn regex_replace_all(pattern: &str, text: &str, replacement: &str) -> (r: String)
    requires
        pattern@ == unsafe_char_pattern() || pattern@ == underscore_run_pattern(),
        replacement@ == "_"@,
    ensures
        pattern@ == unsafe_char_pattern() ==> r@ == mask(text@),
        pattern@ == underscore_run_pattern() ==> r@ == squeeze(text@),
{
    Regex::new(pattern).unwrap().replace_all(text, replacement).into_owned()
}

/// The lower-case form of an ASCII character.
pub fn lower_char(c: char) -> (r: char)
    ensures
        r == lower(c),
{
    if c >= 'A' && c <= 'Z' {
        ((c as u8) + 32) as char
    } else {
        c
    }
}

/// Strips the `_` at both ends and lower-cases what is left.
pub fn trim_and_lower(s: &str) -> (r: String)
    ensures
        r@ == lowered(trim_end(trim_start(s@))),
{
    let v = chars_of(s);
    let n = v.len();
    let mut start: usize = 0;
    assert(v@.skip(0) == v@);
    while start < n && v[start] == '_'
        invariant
            start <= n,
            n == v.len(),
            trim_start(v@) == trim_start(v@.skip(start as int)),
        decreases n - start,
    {
        assert(v@.skip(start as int).skip(1) == v@.skip(start + 1));
        start += 1;
    }
    let mut end: usize = n;
    while end > start && v[end - 1] == '_'
        invariant
            start <= end <= n,
            n == v.len(),
            trim_end(v@.skip(start as int)) == trim_end(v@.subrange(start as int, end as int)),
        decreases end,
    {
        assert(v@.subrange(start as int, end as int).drop_last() == v@.subrange(
            start as int,
            end - 1,
        ));
        end -= 1;
    }
    proof {
        assert(v@.subrange(start as int, n as int) == v@.skip(start as int));
    }
    let ghost kept = v@.subrange(start as int, end as int);
    assert(trim_end(trim_start(s@)) == kept);
    let mut out = String::new();
    let mut k: usize = start;
    while k < end
        invariant
            start <= k <= end <= n,
            n == v.len(),
            kept == v@.subrange(start as int, end as int),
            out@ == lowered(kept.take(k - start)),
        decreases end - k,
    {
        let c = lower_char(v[k]);
        assert(lowered(kept.take(k + 1 - start)) == lowered(kept.take(k - start)).push(c));
        out.push(c);
        k += 1;
    }
    assert(kept.take(end - start) == kept);
    out
}

/// The safe name of a service name.
///
/// Every character outside `[a-zA-Z0-9_-]` becomes `_`, runs of `_` become
/// one `_`, the `_` at both ends are dropped, and the rest is lower-cased.
/// The result is empty where the name holds no safe character other than
/// `_`.
pub fn safe_name(name: &str) -> (r: String)
    ensures
        r@ == safe_name_of(name@),
{
    let masked = regex_replace_all("[^a-zA-Z0-9_-]", name, "_");
    let squeezed = regex_replace_all("_+", masked.as_str(), "_");
    trim_and_lower(squeezed.as_str())
}

/// The characters of a safe name: lower-case ASCII letters, digits, `_`
/// and `-`.
pub open spec fn is_safe_char(c: char) -> bool {
    ||| 'a' <= c <= 'z'
    ||| '0' <= c <= '9'
    ||| c == '_'
    ||| c == '-'
}

/// Every character of the text is one that a name may hold.
pub open spec fn all_name_chars(s: Seq<char>) -> bool {
    forall|i: int| 0 <= i < s.len() ==> is_name_char(#[trigger] s[i])
}

/// Every character of the text is `_`.
pub open spec fn all_underscores(s: Seq<char>) -> bool {
    forall|i: int| 0 <= i < s.len() ==> #[trigger] s[i] == '_'
}

/// Squeezing keeps the first character, makes nothing longer, and brings
/// in no character that was not there.
pub proof fn lemma_squeeze(s: Seq<char>)
    ensures
        squeeze(s).len() <= s.len(),
        s.len() > 0 ==> squeeze(s).len() > 0 && squeeze(s)[0] == s[0] && squeeze(s).last()
            == s.last(),
        all_name_chars(s) ==> all_name_chars(squeeze(s)),
        all_underscores(s) ==> all_underscores(squeeze(s)),
    decreases s.len(),
{
    if s.len() > 0 {
        let earlier = s.drop_last();
        lemma_squeeze(earlier);
        if all_name_chars(s) {
            assert forall|i: int| 0 <= i < earlier.len() implies is_name_char(
                #[trigger] earlier[i],
            ) by {
                assert(earlier[i] == s[i]);
            }
            assert(is_name_char(s[s.len() - 1]));
        }
        if all_underscores(s) {
            assert forall|i: int| 0 <= i < earlier.len() implies #[trigger] earlier[i] == '_' by {
                assert(earlier[i] == s[i]);
            }
            assert(s[s.len() - 1] == '_');
        }
        if s.len() >= 2 {
            assert(earlier.last() == s[s.len() - 2]);
            assert(earlier[0] == s[0]);
        }
    }
}

/// What is left after trimming at the start is the end of the text, and it
/// does not begin with `_`.
pub proof fn lemma_trim_start(s: Seq<char>)
    ensures
        trim_start(s).len() <= s.len(),
        trim_start(s) == s.skip(s.len() - trim_start(s).len()),
        trim_start(s).len() > 0 ==> trim_start(s)[0] != '_',
        all_underscores(s) ==> trim_start(s).len() == 0,
    decreases s.len(),
{
    if s.len() > 0 && s[0] == '_' {
        let rest = s.skip(1);
        lemma_trim_start(rest);
        assert(rest.skip(rest.len() - trim_start(rest).len()) =~= s.skip(
            s.len() - trim_start(rest).len(),
        ));
        if all_underscores(s) {
            assert forall|i: int| 0 <= i < rest.len() implies #[trigger] rest[i] == '_' by {
                assert(rest[i] == s[i + 1]);
            }
        }
    } else {
        assert(s.skip(0) =~= s);
        if s.len() > 0 && all_underscores(s) {
            assert(s[0] == '_');
        }
    }
}

/// What is left after trimming at the end is the start of the text, and it
/// does not end with `_`.
pub proof fn lemma_trim_end(s: Seq<char>)
    ensures
        trim_end(s).len() <= s.len(),
        trim_end(s) == s.take(trim_end(s).len() as int),
        trim_end(s).len() > 0 ==> trim_end(s).last() != '_',
    decreases s.len(),
{
    if s.len() > 0 && s.last() == '_' {
        let rest = s.drop_last();
        lemma_trim_end(rest);
        assert(rest.take(trim_end(rest).len() as int) =~= s.take(trim_end(rest).len() as int));
    } else {
        assert(s.take(s.len() as int) =~= s);
    }
}

/// A safe name holds lower-case ASCII letters, digits, `_` and `-` only,
/// and neither begins nor ends with `_`.
pub proof fn lemma_safe_name_form(s: Seq<char>)
    ensures
        forall|i: int| 0 <= i < safe_name_of(s).len() ==> is_safe_char(#[trigger] safe_name_of(s)[i]),
        safe_name_of(s).len() > 0 ==> safe_name_of(s)[0] != '_' && safe_name_of(s).last() != '_',
        safe_name_of(s).len() <= s.len(),
{
    let masked = mask(s);
    let squeezed = squeeze(masked);
    let front = trim_start(squeezed);
    let kept = trim_end(front);
    lemma_squeeze(masked);
    lemma_trim_start(squeezed);
    lemma_trim_end(front);
    assert forall|i: int| 0 <= i < kept.len() implies is_name_char(#[trigger] kept[i]) by {
        let offset = squeezed.len() - front.len();
        assert(kept[i] == front[i]);
        assert(front[i] == squeezed[offset + i]);
        assert(is_name_char(squeezed[offset + i]));
    }
    assert forall|i: int| 0 <= i < safe_name_of(s).len() implies is_safe_char(
        #[trigger] safe_name_of(s)[i],
    ) by {
        assert(is_name_char(kept[i]));
    }
    if kept.len() > 0 {
        assert(kept[0] == front[0]);
    }
}

/// A name without a letter, a digit or a `-` has the empty safe name.
pub proof fn lemma_safe_name_empty(s: Seq<char>)
    requires
        forall|i: int| 0 <= i < s.len() ==> !is_name_char(#[trigger] s[i]) || s[i] == '_',
    ensures
        safe_name_of(s).len() == 0,
{
    let masked = mask(s);
    assert(all_underscores(masked));
    lemma_squeeze(masked);
    lemma_trim_start(squeeze(masked));
}

} // verus!
