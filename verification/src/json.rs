//! Canonical JSON text: object members in ascending order of their keys, and no white space.

use vstd::prelude::*;

use crate::text::{decimal, decimal_text};
use crate::value::Value;

verus! {

/// A hexadecimal digit.
pub open spec fn hex_digit(d: int) -> char {
    if d < 10 {
        (48 + d) as char
    } else {
        (87 + d) as char
    }
}

/// A character as it stands in a JSON string: quotation marks, backslashes and control characters are
/// escaped, the latter with a letter of their own where JSON has one.
pub open spec fn escape_of(c: char) -> Seq<char> {
    if c == '"' || c == '\\' {
        seq!['\\', c]
    } else if c == '\u{8}' {
        seq!['\\', 'b']
    } else if c == '\t' {
        seq!['\\', 't']
    } else if c == '\n' {
        seq!['\\', 'n']
    } else if c == '\u{c}' {
        seq!['\\', 'f']
    } else if c == '\r' {
        seq!['\\', 'r']
    } else if (c as int) <= 31 {
        seq!['\\', 'u', '0', '0', hex_digit(c as int / 16), hex_digit(c as int % 16)]
    } else {
        seq![c]
    }
}

/// The characters of a text as they stand in a JSON string.
pub open spec fn escaped(text: Seq<char>) -> Seq<char>
    decreases text.len(),
{
    if text.len() == 0 {
        Seq::empty()
    } else {
        escape_of(text[0]) + escaped(text.skip(1))
    }
}

/// A JSON string: in quotation marks, with escapes where JSON needs them.
pub open spec fn json_string_of(text: Seq<char>) -> Seq<char> {
    quoted(escaped(text))
}

/// Writes a `serde_json::Value::String` with its `Display`. The contract claims that the string comes
/// in quotation marks, with quotation marks, backslashes and the control characters below the blank
/// escaped, in lowercase digits, and everything else as it is.
#[verifier::external_body]
pub(crate) fn json_string(text: &str) -> (r: String)
    ensures
        r@ == json_string_of(text@),
{
    serde_json::Value::String(text.to_owned()).to_string()
}

/// A value with a canonical JSON text.
pub trait Encode: Value {
    /// The canonical text of a value.
    spec fn json(v: Self::V) -> Seq<char>;

    /// Writes the canonical text.
    fn to_json(&self) -> (r: String)
        ensures
            r@ == Self::json(self.deep_view()),
    ;
}

/// A text without characters to escape, in quotation marks.
pub open spec fn quoted(text: Seq<char>) -> Seq<char> {
    (seq!['"'] + text).push('"')
}

/// Puts `text`, which holds nothing to escape, in quotation marks.
pub fn quote(text: &str) -> (r: String)
    ensures
        r@ == quoted(text@),
{
    let mut r = String::new();
    r.push('"');
    r.append(text);
    r.push('"');
    assert(r@ =~= quoted(text@));
    r
}

/// The text of an object that is still open, with one more member.
pub open spec fn member(text: Seq<char>, key: Seq<char>, value: Seq<char>) -> Seq<char> {
    (text.push(
        if text.len() == 0 {
            '{'
        } else {
            ','
        },
    ) + quoted(key)).push(':') + value
}

/// Adds a member to the text of an open object.
pub fn add_member(text: &mut String, key: &str, value: &String)
    ensures
        final(text)@ == member(old(text)@, key@, value@),
{
    if text.as_str().is_empty() {
        text.push('{');
    } else {
        text.push(',');
    }
    let k = quote(key);
    text.append(k.as_str());
    text.push(':');
    text.append(value.as_str());
}

/// The text of an object with the members that were added.
pub open spec fn object(text: Seq<char>) -> Seq<char> {
    if text.len() == 0 {
        seq!['{', '}']
    } else {
        text.push('}')
    }
}

/// Closes the text of an object.
pub fn close_object(text: &mut String)
    ensures
        final(text)@ == object(old(text)@),
{
    if text.as_str().is_empty() {
        text.push('{');
        text.push('}');
        assert(text@ =~= seq!['{', '}']);
    } else {
        text.push('}');
    }
}

/// The texts of the items of an array, with a comma between them.
pub open spec fn comma_separated(items: Seq<Seq<char>>) -> Seq<char>
    decreases items.len(),
{
    if items.len() == 0 {
        Seq::empty()
    } else if items.len() == 1 {
        items[0]
    } else {
        comma_separated(items.drop_last()).push(',') + items.last()
    }
}

impl Encode for String {
    open spec fn json(v: Seq<char>) -> Seq<char> {
        json_string_of(v)
    }

    fn to_json(&self) -> (r: String) {
        json_string(self.as_str())
    }
}

impl Encode for bool {
    open spec fn json(v: bool) -> Seq<char> {
        if v {
            "true"@
        } else {
            "false"@
        }
    }

    fn to_json(&self) -> (r: String) {
        if *self {
            "true".to_owned()
        } else {
            "false".to_owned()
        }
    }
}

impl Encode for u16 {
    open spec fn json(v: u16) -> Seq<char> {
        decimal(v as nat)
    }

    fn to_json(&self) -> (r: String) {
        decimal_text(*self as u64)
    }
}

impl Encode for u32 {
    open spec fn json(v: u32) -> Seq<char> {
        decimal(v as nat)
    }

    fn to_json(&self) -> (r: String) {
        decimal_text(*self as u64)
    }
}

impl Encode for u64 {
    open spec fn json(v: u64) -> Seq<char> {
        decimal(v as nat)
    }

    fn to_json(&self) -> (r: String) {
        decimal_text(*self)
    }
}

impl<T: Encode> Encode for Option<T> {
    open spec fn json(v: Option<T::V>) -> Seq<char> {
        match v {
            Some(x) => T::json(x),
            None => "null"@,
        }
    }

    fn to_json(&self) -> (r: String) {
        match self {
            Some(x) => x.to_json(),
            None => "null".to_owned(),
        }
    }
}

/// The texts of the items of a list.
pub open spec fn item_texts<T: Encode>(v: Seq<T::V>) -> Seq<Seq<char>> {
    v.map_values(|x: T::V| T::json(x))
}

impl<T: Encode> Encode for Vec<T> {
    open spec fn json(v: Seq<T::V>) -> Seq<char> {
        (seq!['['] + comma_separated(item_texts::<T>(v))).push(']')
    }

    fn to_json(&self) -> (r: String) {
        let mut r = String::new();
        r.push('[');
        let ghost all = item_texts::<T>(self.deep_view());
        let mut i: usize = 0;
        assert(all.take(0) =~= Seq::empty());
        assert(r@ =~= seq!['['] + comma_separated(all.take(0)));
        while i < self.len()
            invariant
                i <= self.len(),
                all == item_texts::<T>(self.deep_view()),
                r@ == seq!['['] + comma_separated(all.take(i as int)),
            decreases self.len() - i,
        {
            let ghost before = r@;
            if i > 0 {
                r.push(',');
            }
            let item = self[i].to_json();
            r.append(item.as_str());
            assert(item@ == all[i as int]);
            assert(all.take(i + 1).drop_last() =~= all.take(i as int));
            assert(all.take(i + 1).last() == all[i as int]);
            if i == 0 {
                assert(all.take(1)[0] == all[0]);
                assert(all.take(0) =~= Seq::empty());
            }
            assert(r@ =~= seq!['['] + comma_separated(all.take(i + 1)));
            i = i + 1;
        }
        assert(all.take(i as int) =~= all);
        r.push(']');
        r
    }
}

} // verus!
