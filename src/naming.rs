use vstd::prelude::*;
use vstd::string::StrSliceExecFns;

use crate::tag::same_text;

verus! {

/// The kebab-case form of an identifier, as heck computes it.
pub uninterp spec fn kebab_of(s: Seq<char>) -> Seq<char>;

/// The lowerCamelCase form of a name, as heck computes it.
pub uninterp spec fn lower_camel_of(s: Seq<char>) -> Seq<char>;

/// Relies on heck's `ToKebabCase::to_kebab_case` for `str`: the result depends
/// on the characters alone.
#[verifier::external_body]
pub(crate) fn to_kebab_case(s: &str) -> (r: String)
    ensures
        r@ == kebab_of(s@),
{
    heck::ToKebabCase::to_kebab_case(s)
}

/// Relies on heck's `ToLowerCamelCase::to_lower_camel_case` for `str`: the
/// result depends on the characters alone.
#[verifier::external_body]
pub(crate) fn to_lower_camel_case(s: &str) -> (r: String)
    ensures
        r@ == lower_camel_of(s@),
{
    heck::ToLowerCamelCase::to_lower_camel_case(s)
}

/// `p` begins `s`.
pub open spec fn has_prefix(s: Seq<char>, p: Seq<char>) -> bool {
    p.len() <= s.len() && s.take(p.len() as int) == p
}

/// An identifier without its raw marker `r#`.
pub open spec fn unraw_spec(s: Seq<char>) -> Seq<char> {
    if has_prefix(s, "r#"@) {
        s.skip(2)
    } else {
        s
    }
}

/// Whether `s` begins with `prefix`.
pub fn starts_with(s: &str, prefix: &str) -> (r: bool)
    ensures
        r == has_prefix(s@, prefix@),
{
    let n = s.unicode_len();
    let m = prefix.unicode_len();
    if m > n {
        return false;
    }
    let head = s.substring_char(0, m);
    assert(head@ =~= s@.take(m as int));
    same_text(head, prefix)
}

/// The identifier without its raw marker `r#`.
pub fn unraw(s: &str) -> (r: &str)
    ensures
        r@ == unraw_spec(s@),
{
    if starts_with(s, "r#") {
        proof {
            reveal_strlit("r#");
        }
        let n = s.unicode_len();
        s.substring_char(2, n)
    } else {
        s
    }
}

/// `s` with every leading repetition of `p` removed.
pub open spec fn strip_prefixes(s: Seq<char>, p: Seq<char>) -> Seq<char>
    decreases s.len(),
{
    if p.len() > 0 && p.len() <= s.len() && s.take(p.len() as int) == p {
        strip_prefixes(s.skip(p.len() as int), p)
    } else {
        s
    }
}

/// Remove every leading repetition of `prefix` from `s`.
pub fn trim_prefixes<'a>(s: &'a str, prefix: &str) -> (r: &'a str)
    ensures
        r@ == strip_prefixes(s@, prefix@),
{
    let n = s.unicode_len();
    let m = prefix.unicode_len();
    if m == 0 {
        return s;
    }
    let mut i: usize = 0;
    assert(s@.skip(0) =~= s@);
    while m <= n - i && same_text(s.substring_char(i, i + m), prefix)
        invariant
            n == s@.len(),
            m == prefix@.len(),
            m > 0,
            i <= n,
            strip_prefixes(s@, prefix@) == strip_prefixes(s@.skip(i as int), prefix@),
        decreases n - i,
    {
        proof {
            let t = s@.skip(i as int);
            assert(t.take(m as int) =~= s@.subrange(i as int, (i + m) as int));
            assert(t.skip(m as int) =~= s@.skip((i + m) as int));
        }
        i = i + m;
    }
    proof {
        let t = s@.skip(i as int);
        if m <= n - i {
            assert(t.take(m as int) =~= s@.subrange(i as int, (i + m) as int));
        }
    }
    s.substring_char(i, n)
}

} // verus!
