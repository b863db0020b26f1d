use vstd::prelude::*;
use vstd::string::StrSliceExecFns;

use crate::naming::{kebab_of, to_kebab_case, unraw, unraw_spec};

verus! {

/// Why a custom element tag was refused.
#[derive(Debug)]
pub enum InvalidTagError {
    Empty,
    InvalidStartingLetter(String),
    NoHyphen(String),
    HasUpperCase(char, String),
    InvalidChar(char, String),
    ForbiddenName(String),
}

/// The mathematical content of an [`InvalidTagError`].
pub ghost enum TagProblem {
    Empty,
    InvalidStartingLetter(Seq<char>),
    NoHyphen(Seq<char>),
    HasUpperCase(char, Seq<char>),
    InvalidChar(char, Seq<char>),
    ForbiddenName(Seq<char>),
}

impl View for InvalidTagError {
    type V = TagProblem;

    open spec fn view(&self) -> TagProblem {
        match self {
            InvalidTagError::Empty => TagProblem::Empty,
            InvalidTagError::InvalidStartingLetter(t) => TagProblem::InvalidStartingLetter(t@),
            InvalidTagError::NoHyphen(t) => TagProblem::NoHyphen(t@),
            InvalidTagError::HasUpperCase(c, t) => TagProblem::HasUpperCase(*c, t@),
            InvalidTagError::InvalidChar(c, t) => TagProblem::InvalidChar(*c, t@),
            InvalidTagError::ForbiddenName(t) => TagProblem::ForbiddenName(t@),
        }
    }
}

/// A valid custom element tag.
#[derive(Debug)]
pub struct Tag(pub String);

pub open spec fn is_ascii_lower(c: char) -> bool {
    'a' <= c <= 'z'
}

pub open spec fn is_ascii_upper(c: char) -> bool {
    'A' <= c <= 'Z'
}

/// The characters that may follow the first one in a custom element name.
pub open spec fn is_name_char(c: char) -> bool {
    ||| c == '-'
    ||| c == '.'
    ||| '0' <= c <= '9'
    ||| 'a' <= c <= 'z'
    ||| c == '\u{00B7}'
    ||| '\u{00C0}' <= c <= '\u{00D6}'
    ||| '\u{00D8}' <= c <= '\u{00F6}'
    ||| '\u{00F8}' <= c <= '\u{037D}'
    ||| '\u{037F}' <= c <= '\u{1FFF}'
    ||| '\u{200C}' <= c <= '\u{200D}'
    ||| '\u{203F}' <= c <= '\u{2040}'
    ||| '\u{2070}' <= c <= '\u{218F}'
    ||| '\u{2C00}' <= c <= '\u{2FEF}'
    ||| '\u{3001}' <= c <= '\u{D7FF}'
    ||| '\u{F900}' <= c <= '\u{FDCF}'
    ||| '\u{FDF0}' <= c <= '\u{FFFD}'
    ||| '\u{10000}' <= c <= '\u{EFFFF}'
}

/// Names that the HTML standard reserves.
pub open spec fn is_reserved_name(t: Seq<char>) -> bool {
    ||| t == "annotation-xml"@
    ||| t == "color-profile"@
    ||| t == "font-face"@
    ||| t == "font-face-src"@
    ||| t == "font-face-uri"@
    ||| t == "font-face-format"@
    ||| t == "font-face-name"@
    ||| t == "missing-glyph"@
}

/// `i` is the first index at or after `from` whose character satisfies `p`.
pub open spec fn is_first_at(t: Seq<char>, from: int, i: int, p: spec_fn(char) -> bool) -> bool {
    &&& from <= i < t.len()
    &&& p(t[i])
    &&& forall|j: int| from <= j < i ==> !p(#[trigger] t[j])
}

pub open spec fn has_at(t: Seq<char>, from: int, p: spec_fn(char) -> bool) -> bool {
    exists|i: int| from <= i < t.len() && p(#[trigger] t[i])
}

/// The first character at or after `from` that satisfies `p`.
pub open spec fn first_at(t: Seq<char>, from: int, p: spec_fn(char) -> bool) -> char {
    t[choose|i: int| is_first_at(t, from, i, p)]
}

pub open spec fn upper_pred() -> spec_fn(char) -> bool {
    |c: char| is_ascii_upper(c)
}

pub open spec fn invalid_pred() -> spec_fn(char) -> bool {
    |c: char| !is_name_char(c)
}

/// What is wrong with a candidate tag, checked in a fixed order; `None` when it is valid.
pub open spec fn tag_problem(t: Seq<char>) -> Option<TagProblem> {
    if t.len() == 0 {
        Some(TagProblem::Empty)
    } else if !is_ascii_lower(t[0]) {
        Some(TagProblem::InvalidStartingLetter(t))
    } else if !t.contains('-') {
        Some(TagProblem::NoHyphen(t))
    } else if has_at(t, 0, upper_pred()) {
        Some(TagProblem::HasUpperCase(first_at(t, 0, upper_pred()), t))
    } else if has_at(t, 1, invalid_pred()) {
        Some(TagProblem::InvalidChar(first_at(t, 1, invalid_pred()), t))
    } else if is_reserved_name(t) {
        Some(TagProblem::ForbiddenName(t))
    } else {
        None
    }
}

proof fn lemma_first_unique(t: Seq<char>, from: int, i: int, p: spec_fn(char) -> bool)
    requires
        is_first_at(t, from, i, p),
    ensures
        has_at(t, from, p),
        first_at(t, from, p) == t[i],
{
    let k = choose|k: int| is_first_at(t, from, k, p);
    assert(is_first_at(t, from, k, p));
    if k < i {
        assert(!p(t[k]));
    } else if i < k {
        assert(!p(t[i]));
    }
}

/// The first index at or after `from` whose character satisfies the predicate, if any.
fn find_char(tag: &str, len: usize, from: usize, upper: bool) -> (r: Option<usize>)
    requires
        len == tag@.len(),
        from <= len,
    ensures
        ({
            let p = if upper { upper_pred() } else { invalid_pred() };
            match r {
                Some(i) => is_first_at(tag@, from as int, i as int, p),
                None => !has_at(tag@, from as int, p),
            }
        }),
{
    let ghost p = if upper { upper_pred() } else { invalid_pred() };
    let mut i: usize = from;
    while i < len
        invariant
            from <= i <= len,
            len == tag@.len(),
            p == (if upper { upper_pred() } else { invalid_pred() }),
            forall|j: int| from <= j < i ==> !p(#[trigger] tag@[j]),
        decreases len - i,
    {
        let c = tag.get_char(i);
        let hit = if upper { is_upper_char(c) } else { !valid_chars(c) };
        if hit {
            return Some(i);
        }
        i = i + 1;
    }
    None
}

fn is_upper_char(c: char) -> (r: bool)
    ensures
        r == is_ascii_upper(c),
{
    'A' <= c && c <= 'Z'
}

/// Whether two texts hold the same characters.
pub fn same_text(a: &str, b: &str) -> (r: bool)
    ensures
        r == (a@ == b@),
{
    let n = a.unicode_len();
    if n != b.unicode_len() {
        return false;
    }
    let mut i: usize = 0;
    while i < n
        invariant
            n == a@.len() == b@.len(),
            i <= n,
            forall|j: int| 0 <= j < i ==> a@[j] == b@[j],
        decreases n - i,
    {
        if a.get_char(i) != b.get_char(i) {
            return false;
        }
        i = i + 1;
    }
    assert(a@ =~= b@);
    true
}

fn is_reserved(tag: &str) -> (r: bool)
    ensures
        r == is_reserved_name(tag@),
{
    same_text(tag, "annotation-xml") || same_text(tag, "color-profile") || same_text(
        tag,
        "font-face",
    ) || same_text(tag, "font-face-src") || same_text(tag, "font-face-uri") || same_text(
        tag,
        "font-face-format",
    ) || same_text(tag, "font-face-name") || same_text(tag, "missing-glyph")
}

/// Check the validity of a custom element tag.
pub fn check_tag(tag: &str) -> (r: Result<(), InvalidTagError>)
    ensures
        match r {
            Ok(()) => tag_problem(tag@) is None,
            Err(e) => tag_problem(tag@) == Some(e@),
        },
{
    let len = tag.unicode_len();
    if len == 0 {
        return Err(InvalidTagError::Empty);
    }
    let start = tag.get_char(0);
    if !('a' <= start && start <= 'z') {
        return Err(InvalidTagError::InvalidStartingLetter(tag.to_owned()));
    }
    let mut i: usize = 0;
    let mut hyphen = false;
    while i < len
        invariant
            len == tag@.len(),
            i <= len,
            hyphen <==> exists|j: int| 0 <= j < i && tag@[j] == '-',
        decreases len - i,
    {
        if tag.get_char(i) == '-' {
            hyphen = true;
        }
        i = i + 1;
    }
    if !hyphen {
        return Err(InvalidTagError::NoHyphen(tag.to_owned()));
    }
    assert(tag@.contains('-'));
    match find_char(tag, len, 0, true) {
        Some(k) => {
            proof {
                lemma_first_unique(tag@, 0, k as int, upper_pred());
            }
            return Err(InvalidTagError::HasUpperCase(tag.get_char(k), tag.to_owned()));
        },
        None => {},
    }
    match find_char(tag, len, 1, false) {
        Some(k) => {
            proof {
                lemma_first_unique(tag@, 1, k as int, invalid_pred());
            }
            return Err(InvalidTagError::InvalidChar(tag.get_char(k), tag.to_owned()));
        },
        None => {},
    }
    if is_reserved(tag) {
        return Err(InvalidTagError::ForbiddenName(tag.to_owned()));
    }
    Ok(())
}

/// Whether a character may follow the first one in a custom element name.
pub fn valid_chars(ch: char) -> (r: bool)
    ensures
        r == is_name_char(ch),
{
    ch == '-' || ch == '.' || ('0' <= ch && ch <= '9') || ('a' <= ch && ch <= 'z') || ch
        == '\u{00B7}' || ('\u{00C0}' <= ch && ch <= '\u{00D6}') || ('\u{00D8}' <= ch && ch
        <= '\u{00F6}') || ('\u{00F8}' <= ch && ch <= '\u{037D}') || ('\u{037F}' <= ch && ch
        <= '\u{1FFF}') || ('\u{200C}' <= ch && ch <= '\u{200D}') || ('\u{203F}' <= ch && ch
        <= '\u{2040}') || ('\u{2070}' <= ch && ch <= '\u{218F}') || ('\u{2C00}' <= ch && ch
        <= '\u{2FEF}') || ('\u{3001}' <= ch && ch <= '\u{D7FF}') || ('\u{F900}' <= ch && ch
        <= '\u{FDCF}') || ('\u{FDF0}' <= ch && ch <= '\u{FFFD}') || ('\u{10000}' <= ch && ch
        <= '\u{EFFFF}')
}

impl Tag {
    /// Build a tag from its text, when the text is a valid custom element name.
    pub fn from_str(value: &str) -> (r: Result<Tag, InvalidTagError>)
        ensures
            match r {
                Ok(t) => tag_problem(value@) is None && t.0@ == value@,
                Err(e) => tag_problem(value@) == Some(e@),
            },
    {
        match check_tag(value) {
            Ok(()) => Ok(Tag(value.to_owned())),
            Err(e) => Err(e),
        }
    }

    /// The tag of a component that names none: the kebab-case form of the
    /// component's name, without its raw marker, when that is a valid tag.
    pub fn from_component_name(name: &str) -> (r: Result<Tag, InvalidTagError>)
        ensures
            match r {
                Ok(t) => t.0@ == kebab_of(unraw_spec(name@)) && tag_problem(t.0@) is None,
                Err(e) => tag_problem(kebab_of(unraw_spec(name@))) == Some(e@),
            },
    {
        let tag = to_kebab_case(unraw(name));
        Tag::from_str(tag.as_str())
    }
}

} // verus!
