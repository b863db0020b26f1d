use vstd::prelude::*;
use vstd::string::StrSliceExecFns;

use crate::tag::same_text;

verus! {

/// A value as it crosses the boundary to the host page.
#[derive(Debug)]
pub enum ExternalValue {
    Undefined,
    Null,
    Bool(bool),
    Int(i64),
    Text(String),
}

/// The mathematical content of an [`ExternalValue`].
pub ghost enum Value {
    Undefined,
    Null,
    Bool(bool),
    Int(i64),
    Text(Seq<char>),
}

impl View for ExternalValue {
    type V = Value;

    open spec fn view(&self) -> Value {
        match self {
            ExternalValue::Undefined => Value::Undefined,
            ExternalValue::Null => Value::Null,
            ExternalValue::Bool(b) => Value::Bool(*b),
            ExternalValue::Int(n) => Value::Int(*n),
            ExternalValue::Text(s) => Value::Text(s@),
        }
    }
}

/// The kind of value that an attribute or a property holds.
#[derive(Clone, Copy, Debug, PartialEq, Eq, Structural)]
pub enum ValueKind {
    Text,
    Int,
    Bool,
}

pub open spec fn has_kind(v: Value, k: ValueKind) -> bool {
    match k {
        ValueKind::Text => v is Text,
        ValueKind::Int => v is Int,
        ValueKind::Bool => v is Bool,
    }
}

pub open spec fn is_digit(c: char) -> bool {
    '0' <= c <= '9'
}

pub open spec fn digit_value(c: char) -> int {
    (c as u32) as int - ('0' as u32) as int
}

pub open spec fn all_digits(s: Seq<char>) -> bool {
    forall|i: int| 0 <= i < s.len() ==> is_digit(#[trigger] s[i])
}

/// The number written by a sequence of decimal digits.
pub open spec fn digits_value(s: Seq<char>) -> int
    decreases s.len(),
{
    if s.len() == 0 {
        0
    } else {
        digits_value(s.drop_last()) * 10 + digit_value(s.last())
    }
}

/// The integer written in decimal, with an optional sign.
pub open spec fn int_text_value(s: Seq<char>) -> Option<int> {
    let neg = s.len() > 0 && s[0] == '-';
    let digits = if s.len() > 0 && (s[0] == '-' || s[0] == '+') {
        s.drop_first()
    } else {
        s
    };
    if digits.len() > 0 && all_digits(digits) {
        Some(
            if neg {
                -digits_value(digits)
            } else {
                digits_value(digits)
            },
        )
    } else {
        None
    }
}

/// What the text of an attribute parses to, for a given kind.
pub open spec fn parse_spec(k: ValueKind, s: Seq<char>) -> Option<Value> {
    match k {
        ValueKind::Text => Some(Value::Text(s)),
        ValueKind::Bool => if s == "true"@ {
            Some(Value::Bool(true))
        } else if s == "false"@ {
            Some(Value::Bool(false))
        } else {
            None
        },
        ValueKind::Int => match int_text_value(s) {
            Some(n) => if i64::MIN <= n <= i64::MAX {
                Some(Value::Int(n as i64))
            } else {
                None
            },
            None => None,
        },
    }
}

pub open spec fn opt_value(v: Option<ExternalValue>) -> Option<Value> {
    match v {
        Some(x) => Some(x@),
        None => None,
    }
}

proof fn lemma_digits_nonneg(s: Seq<char>)
    requires
        all_digits(s),
    ensures
        digits_value(s) >= 0,
    decreases s.len(),
{
    if s.len() > 0 {
        assert(is_digit(s[s.len() - 1]));
        lemma_digits_nonneg(s.drop_last());
    }
}

proof fn lemma_digits_monotone(s: Seq<char>, i: int, j: int)
    requires
        all_digits(s),
        0 <= i <= j <= s.len(),
    ensures
        digits_value(s.take(i)) <= digits_value(s.take(j)),
    decreases j - i,
{
    if i < j {
        lemma_digits_monotone(s, i, j - 1);
        let t = s.take(j);
        assert(t.drop_last() =~= s.take(j - 1));
        assert(is_digit(s[j - 1]));
        lemma_digits_nonneg(s.take(j - 1));
    }
}

/// The value of the decimal digits of `s` from `start`, or `None` when it exceeds `bound`.
fn digits_upto(s: &str, len: usize, start: usize, bound: u64) -> (r: Option<u64>)
    requires
        len == s@.len(),
        start <= len,
        all_digits(s@.skip(start as int)),
    ensures
        match r {
            Some(n) => n == digits_value(s@.skip(start as int)) && n <= bound,
            None => digits_value(s@.skip(start as int)) > bound,
        },
{
    let ghost d = s@.skip(start as int);
    let mut acc: u64 = 0;
    let mut i: usize = start;
    while i < len
        invariant
            len == s@.len(),
            start <= i <= len,
            d == s@.skip(start as int),
            all_digits(d),
            acc == digits_value(d.take(i - start)),
            acc <= bound,
        decreases len - i,
    {
        let c = s.get_char(i);
        proof {
            assert(d[i - start] == c);
            assert(is_digit(c));
            let t = d.take(i - start + 1);
            assert(t.drop_last() =~= d.take(i - start));
        }
        let dv = (c as u32 - '0' as u32) as u64;
        let next: u128 = acc as u128 * 10 + dv as u128;
        if next > bound as u128 {
            proof {
                let k = i - start + 1;
                lemma_digits_monotone(d, k, d.len() as int);
                assert(d.take(d.len() as int) =~= d);
                assert(digits_value(d.take(k)) == next);
            }
            return None;
        }
        acc = next as u64;
        i = i + 1;
    }
    proof {
        assert(d.take(i - start) =~= d);
    }
    Some(acc)
}

fn parse_int(s: &str) -> (r: Option<i64>)
    ensures
        match r {
            Some(n) => parse_spec(ValueKind::Int, s@) == Some(Value::Int(n)),
            None => parse_spec(ValueKind::Int, s@) is None,
        },
{
    let len = s.unicode_len();
    let mut start: usize = 0;
    let mut neg = false;
    if len > 0 {
        let c = s.get_char(0);
        if c == '-' || c == '+' {
            start = 1;
            neg = c == '-';
        }
    }
    let ghost digits = s@.skip(start as int);
    proof {
        if start == 1 {
            assert(digits =~= s@.drop_first());
        } else {
            assert(digits =~= s@);
        }
        assert(digits == (if s@.len() > 0 && (s@[0] == '-' || s@[0] == '+') {
            s@.drop_first()
        } else {
            s@
        }));
        assert(neg == (s@.len() > 0 && s@[0] == '-'));
    }
    if start >= len {
        return None;
    }
    let mut i: usize = start;
    while i < len
        invariant
            len == s@.len(),
            start <= i <= len,
            digits == s@.skip(start as int),
            digits == (if s@.len() > 0 && (s@[0] == '-' || s@[0] == '+') {
                s@.drop_first()
            } else {
                s@
            }),
            forall|j: int| 0 <= j < i - start ==> is_digit(#[trigger] digits[j]),
        decreases len - i,
    {
        let c = s.get_char(i);
        if !('0' <= c && c <= '9') {
            assert(!is_digit(digits[i - start]));
            assert(!all_digits(digits));
            return None;
        }
        i = i + 1;
    }
    assert(all_digits(digits));
    let bound: u64 = if neg {
        0x8000_0000_0000_0000
    } else {
        0x7fff_ffff_ffff_ffff
    };
    match digits_upto(s, len, start, bound) {
        Some(m) => {
            if neg {
                if m == 0x8000_0000_0000_0000 {
                    Some(i64::MIN)
                } else {
                    Some(-(m as i64))
                }
            } else {
                Some(m as i64)
            }
        },
        None => None,
    }
}

impl ExternalValue {
    /// A copy of the value.
    pub fn duplicate(&self) -> (r: ExternalValue)
        ensures
            r@ == self@,
    {
        match self {
            ExternalValue::Undefined => ExternalValue::Undefined,
            ExternalValue::Null => ExternalValue::Null,
            ExternalValue::Bool(b) => ExternalValue::Bool(*b),
            ExternalValue::Int(n) => ExternalValue::Int(*n),
            ExternalValue::Text(s) => ExternalValue::Text(s.clone()),
        }
    }

    /// Whether the value is of the given kind.
    pub fn is_kind(&self, kind: ValueKind) -> (r: bool)
        ensures
            r == has_kind(self@, kind),
    {
        match kind {
            ValueKind::Text => matches!(self, ExternalValue::Text(_)),
            ValueKind::Int => matches!(self, ExternalValue::Int(_)),
            ValueKind::Bool => matches!(self, ExternalValue::Bool(_)),
        }
    }
}

/// Parse the text of an attribute as a value of the given kind.
pub fn parse_value(kind: ValueKind, text: &str) -> (r: Option<ExternalValue>)
    ensures
        opt_value(r) == parse_spec(kind, text@),
{
    match kind {
        ValueKind::Text => Some(ExternalValue::Text(text.to_owned())),
        ValueKind::Bool => {
            if same_text(text, "true") {
                Some(ExternalValue::Bool(true))
            } else if same_text(text, "false") {
                Some(ExternalValue::Bool(false))
            } else {
                None
            }
        },
        ValueKind::Int => match parse_int(text) {
            Some(n) => Some(ExternalValue::Int(n)),
            None => None,
        },
    }
}

} // verus!
