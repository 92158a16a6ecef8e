//! Text: byte lengths, character classes, trimming, order, splitting and decimal numbers.

use vstd::prelude::*;
use vstd::utf8::encode_utf8;

use crate::value::lemma_push_view;

verus! {

/// `String::push` of the standard library: it adds one character at the end.
pub assume_specification[ String::push ](s: &mut String, c: char)
    ensures
        final(s)@ == old(s)@.push(c),
;

/// The number of bytes that a text takes in UTF-8.
pub open spec fn byte_len(s: Seq<char>) -> nat {
    encode_utf8(s).len()
}

/// The length of `s` in bytes.
pub fn byte_length(s: &str) -> (n: usize)
    ensures
        n == byte_len(s@),
{
    s.as_bytes().len()
}

/// The characters of `s`, in order.
pub fn characters(s: &str) -> (v: Vec<char>)
    ensures
        v@ == s@,
{
    let mut v: Vec<char> = Vec::new();
    for c in it: s.chars()
        invariant
            v@ == it.seq().take(it.index() as int),
            it.seq() == s@,
    {
        v.push(c);
        assert(it.seq().take(it.index() as int).push(c) =~= it.seq().take(it.index() + 1));
    }
    assert(s@.take(s@.len() as int) =~= s@);
    v
}

/// The text made of the characters `chars[from..to]`.
pub fn text_of(chars: &Vec<char>, from: usize, to: usize) -> (s: String)
    requires
        from <= to <= chars.len(),
    ensures
        s@ == chars@.subrange(from as int, to as int),
{
    let mut s = String::new();
    let mut i: usize = from;
    while i < to
        invariant
            from <= i <= to <= chars.len(),
            s@ == chars@.subrange(from as int, i as int),
        decreases to - i,
    {
        s.push(chars[i]);
        assert(chars@.subrange(from as int, i as int).push(chars@[i as int])
            =~= chars@.subrange(from as int, i + 1));
        i = i + 1;
    }
    s
}

/// Two texts, one behind the other.
pub fn joined(a: &str, b: &str) -> (s: String)
    ensures
        s@ == a@ + b@,
{
    let mut s = a.to_owned();
    s.append(b);
    s
}

/// Tells whether two texts are the same.
pub fn same_text(a: &str, b: &str) -> (r: bool)
    ensures
        r == (a@ == b@),
{
    let x = a.to_owned();
    let y = b.to_owned();
    x == y
}

/// The classes of characters that the contracts of this crate speak of.
#[derive(Debug, Clone, Copy, PartialEq, Eq, Structural)]
pub enum CharClass {
    /// The digits 0 to 9 and a to f.
    LowerHex,
    /// ASCII letters, digits, `-` and `_`.
    Name,
    /// ASCII letters, digits, `-`, `_` and `.`.
    DottedName,
    /// ASCII letters, digits, `-`, `_`, `.` and `:`.
    ScopedName,
    /// Everything but control characters.
    Printable,
    /// Everything but control characters other than line feed, carriage return and tab.
    Prose,
    /// White space.
    White,
}

/// ASCII letters and digits.
pub open spec fn is_ascii_alphanumeric(c: char) -> bool {
    ('0' <= c && c <= '9') || ('a' <= c && c <= 'z') || ('A' <= c && c <= 'Z')
}

/// The control characters of Unicode: U+0000 to U+001F and U+007F to U+009F.
pub open spec fn is_control(c: char) -> bool {
    c <= '\u{1f}' || ('\u{7f}' <= c && c <= '\u{9f}')
}

/// The white space of Unicode.
pub open spec fn is_white_space(c: char) -> bool {
    ||| ('\u{9}' <= c && c <= '\u{d}')
    ||| c == ' '
    ||| c == '\u{85}'
    ||| c == '\u{a0}'
    ||| c == '\u{1680}'
    ||| ('\u{2000}' <= c && c <= '\u{200a}')
    ||| c == '\u{2028}'
    ||| c == '\u{2029}'
    ||| c == '\u{202f}'
    ||| c == '\u{205f}'
    ||| c == '\u{3000}'
}

/// One of the digits 0 to 9 or a to f.
pub open spec fn is_lower_hex_digit(c: char) -> bool {
    ('0' <= c && c <= '9') || ('a' <= c && c <= 'f')
}

/// Membership in a class.
pub open spec fn in_class(class: CharClass, c: char) -> bool {
    match class {
        CharClass::LowerHex => is_lower_hex_digit(c),
        CharClass::Name => is_ascii_alphanumeric(c) || c == '-' || c == '_',
        CharClass::DottedName => is_ascii_alphanumeric(c) || c == '-' || c == '_' || c == '.',
        CharClass::ScopedName => is_ascii_alphanumeric(c) || c == '-' || c == '_' || c == '.'
            || c == ':',
        CharClass::Printable => !is_control(c),
        CharClass::Prose => !is_control(c) || c == '\n' || c == '\r' || c == '\t',
        CharClass::White => is_white_space(c),
    }
}

/// Every character of `s` belongs to `class`.
pub open spec fn every(class: CharClass, s: Seq<char>) -> bool {
    forall|i: int| 0 <= i < s.len() ==> in_class(class, #[trigger] s[i])
}

/// A text of lowercase hexadecimal digits.
pub open spec fn is_lower_hex(s: Seq<char>) -> bool {
    every(CharClass::LowerHex, s)
}

/// A text of white space alone, the empty text included.
pub open spec fn is_blank(s: Seq<char>) -> bool {
    every(CharClass::White, s)
}

/// Tells whether `c` is an ASCII letter or digit.
pub fn ascii_alphanumeric(c: char) -> (r: bool)
    ensures
        r == is_ascii_alphanumeric(c),
{
    ('0' <= c && c <= '9') || ('a' <= c && c <= 'z') || ('A' <= c && c <= 'Z')
}

/// Tells whether `c` is a control character.
pub fn control(c: char) -> (r: bool)
    ensures
        r == is_control(c),
{
    c <= '\u{1f}' || ('\u{7f}' <= c && c <= '\u{9f}')
}

/// Tells whether `c` is white space.
pub fn white_space(c: char) -> (r: bool)
    ensures
        r == is_white_space(c),
{
    ('\u{9}' <= c && c <= '\u{d}') || c == ' ' || c == '\u{85}' || c == '\u{a0}' || c == '\u{1680}'
        || ('\u{2000}' <= c && c <= '\u{200a}') || c == '\u{2028}' || c == '\u{2029}'
        || c == '\u{202f}' || c == '\u{205f}' || c == '\u{3000}'
}

/// Tells whether `c` belongs to `class`.
pub fn belongs(class: CharClass, c: char) -> (r: bool)
    ensures
        r == in_class(class, c),
{
    match class {
        CharClass::LowerHex => ('0' <= c && c <= '9') || ('a' <= c && c <= 'f'),
        CharClass::Name => ascii_alphanumeric(c) || c == '-' || c == '_',
        CharClass::DottedName => ascii_alphanumeric(c) || c == '-' || c == '_' || c == '.',
        CharClass::ScopedName => ascii_alphanumeric(c) || c == '-' || c == '_' || c == '.'
            || c == ':',
        CharClass::Printable => !control(c),
        CharClass::Prose => !control(c) || c == '\n' || c == '\r' || c == '\t',
        CharClass::White => white_space(c),
    }
}

/// Tells whether every character of `s` belongs to `class`.
pub fn all_of(class: CharClass, s: &str) -> (r: bool)
    ensures
        r == every(class, s@),
{
    let v = characters(s);
    let mut i: usize = 0;
    while i < v.len()
        invariant
            i <= v.len(),
            v@ == s@,
            forall|j: int| 0 <= j < i ==> in_class(class, #[trigger] s@[j]),
        decreases v.len() - i,
    {
        if !belongs(class, v[i]) {
            assert(!in_class(class, s@[i as int]));
            return false;
        }
        i = i + 1;
    }
    true
}

/// Tells whether `s` is white space alone.
pub fn blank(s: &str) -> (r: bool)
    ensures
        r == is_blank(s@),
{
    all_of(CharClass::White, s)
}

/// Tells whether `c` occurs in `s`.
pub fn has_char(s: &str, c: char) -> (r: bool)
    ensures
        r == s@.contains(c),
{
    let v = characters(s);
    let mut i: usize = 0;
    while i < v.len()
        invariant
            i <= v.len(),
            v@ == s@,
            forall|j: int| 0 <= j < i ==> s@[j] != c,
        decreases v.len() - i,
    {
        if v[i] == c {
            assert(s@[i as int] == c);
            return true;
        }
        i = i + 1;
    }
    false
}

/// A text without the white space at its start.
pub open spec fn trim_start(s: Seq<char>) -> Seq<char>
    decreases s.len(),
{
    if s.len() > 0 && is_white_space(s[0]) {
        trim_start(s.drop_first())
    } else {
        s
    }
}

/// A text without the white space at its end.
pub open spec fn trim_end(s: Seq<char>) -> Seq<char>
    decreases s.len(),
{
    if s.len() > 0 && is_white_space(s.last()) {
        trim_end(s.drop_last())
    } else {
        s
    }
}

/// A text without the white space at its start and at its end.
pub open spec fn trimmed(s: Seq<char>) -> Seq<char> {
    trim_end(trim_start(s))
}

/// Drops the white space at the start and at the end of `s`.
pub fn trim(s: &str) -> (r: String)
    ensures
        r@ == trimmed(s@),
{
    let v = characters(s);
    let mut from: usize = 0;
    assert(s@.skip(0) =~= s@);
    while from < v.len() && white_space(v[from])
        invariant
            from <= v.len(),
            v@ == s@,
            trim_start(s@) == trim_start(s@.skip(from as int)),
        decreases v.len() - from,
    {
        assert(s@.skip(from as int).drop_first() =~= s@.skip(from + 1));
        from = from + 1;
    }
    let ghost rest = s@.skip(from as int);
    assert(trim_start(s@) == rest);
    let mut to: usize = v.len();
    assert(s@.subrange(from as int, to as int) =~= rest);
    while from < to && white_space(v[to - 1])
        invariant
            from <= to <= v.len(),
            v@ == s@,
            trim_end(rest) == trim_end(s@.subrange(from as int, to as int)),
        decreases to,
    {
        let ghost part = s@.subrange(from as int, to as int);
        assert(part.last() == s@[to - 1]);
        assert(part.drop_last() =~= s@.subrange(from as int, to - 1));
        to = to - 1;
    }
    assert(from < to ==> s@.subrange(from as int, to as int).last() == s@[to - 1]);
    text_of(&v, from, to)
}

/// The order of texts: by the first character in which they differ, a prefix first.
pub open spec fn precedes(a: Seq<char>, b: Seq<char>) -> bool
    decreases a.len(),
{
    if b.len() == 0 {
        false
    } else if a.len() == 0 {
        true
    } else if a[0] == b[0] {
        precedes(a.drop_first(), b.drop_first())
    } else {
        a[0] < b[0]
    }
}

/// Tells whether `a` stands before `b`.
pub fn text_precedes(a: &str, b: &str) -> (r: bool)
    ensures
        r == precedes(a@, b@),
{
    let x = characters(a);
    let y = characters(b);
    let mut i: usize = 0;
    assert(a@.skip(0) =~= a@ && b@.skip(0) =~= b@);
    while i < x.len() && i < y.len() && x[i] == y[i]
        invariant
            i <= x.len(),
            i <= y.len(),
            x@ == a@,
            y@ == b@,
            precedes(a@, b@) == precedes(a@.skip(i as int), b@.skip(i as int)),
        decreases x.len() - i,
    {
        assert(a@.skip(i as int).drop_first() =~= a@.skip(i + 1));
        assert(b@.skip(i as int).drop_first() =~= b@.skip(i + 1));
        i = i + 1;
    }
    if i == y.len() {
        false
    } else if i == x.len() {
        true
    } else {
        x[i] < y[i]
    }
}

/// No text precedes itself.
pub proof fn lemma_precedes_irreflexive(a: Seq<char>)
    ensures
        !precedes(a, a),
    decreases a.len(),
{
    if a.len() > 0 {
        lemma_precedes_irreflexive(a.drop_first());
    }
}

/// The order is transitive.
pub proof fn lemma_precedes_transitive(a: Seq<char>, b: Seq<char>, c: Seq<char>)
    requires
        precedes(a, b),
        precedes(b, c),
    ensures
        precedes(a, c),
    decreases a.len(),
{
    if a.len() > 0 && a[0] == b[0] && b[0] == c[0] {
        lemma_precedes_transitive(a.drop_first(), b.drop_first(), c.drop_first());
    }
}

/// Of two different texts one precedes the other.
pub proof fn lemma_precedes_total(a: Seq<char>, b: Seq<char>)
    ensures
        a == b || precedes(a, b) || precedes(b, a),
    decreases a.len(),
{
    if a.len() > 0 && b.len() > 0 && a[0] == b[0] {
        lemma_precedes_total(a.drop_first(), b.drop_first());
        if a.drop_first() == b.drop_first() {
            assert(a =~= seq![a[0]] + a.drop_first());
            assert(b =~= seq![b[0]] + b.drop_first());
        }
    } else if a.len() == 0 && b.len() == 0 {
        assert(a =~= b);
    }
}

/// Texts in strictly ascending order: sorted, and none twice.
pub open spec fn ascending(s: Seq<Seq<char>>) -> bool {
    forall|i: int, j: int| 0 <= i < j < s.len() ==> precedes(#[trigger] s[i], #[trigger] s[j])
}

/// Adds `item` to an ascending list unless the list holds it already.
pub fn insert_text(list: &mut Vec<String>, item: &String)
    requires
        ascending(old(list).deep_view()),
    ensures
        ascending(final(list).deep_view()),
        forall|t: Seq<char>| #[trigger]
            final(list).deep_view().contains(t) == (old(list).deep_view().contains(t) || t == item@),
{
    let ghost before = list.deep_view();
    let mut at: usize = 0;
    while at < list.len() && text_precedes(list[at].as_str(), item.as_str())
        invariant
            at <= list.len(),
            list.deep_view() == before,
            forall|j: int| 0 <= j < at ==> precedes(#[trigger] before[j], item@),
        decreases list.len() - at,
    {
        assert(before[at as int] == list@[at as int]@);
        at = at + 1;
    }
    if at < list.len() && list[at] == *item {
        assert(before[at as int] == item@);
        assert(before.contains(item@));
        return ;
    }
    proof {
        if at < list.len() {
            assert(before[at as int] == list@[at as int]@);
            lemma_precedes_total(before[at as int], item@);
        }
    }
    list.insert(at, item.clone());
    let ghost after = list.deep_view();
    assert(after =~= before.insert(at as int, item@));
    assert(ascending(after)) by {
        assert forall|i: int, j: int| 0 <= i < j < after.len() implies precedes(
            #[trigger] after[i],
            #[trigger] after[j],
        ) by {
            if i == at as int {
                assert(after[j] == before[j - 1]);
                if j - 1 > at as int {
                    assert(precedes(before[at as int], before[j - 1]));
                    lemma_precedes_transitive(item@, before[at as int], before[j - 1]);
                }
            } else if j == at as int {
                assert(after[i] == before[i]);
            } else {
                let p = if i < at as int { i } else { i - 1 };
                let q = if j < at as int { j } else { j - 1 };
                assert(after[i] == before[p] && after[j] == before[q]);
            }
        }
    }
    assert forall|t: Seq<char>| #[trigger]
        after.contains(t) == (before.contains(t) || t == item@) by {
        if before.contains(t) {
            let i = choose|i: int| 0 <= i < before.len() && before[i] == t;
            let k = if i < at as int { i } else { i + 1 };
            assert(after[k] == t);
        }
        if t == item@ {
            assert(after[at as int] == t);
        }
        if after.contains(t) {
            let k = choose|k: int| 0 <= k < after.len() && after[k] == t;
            if k < at as int {
                assert(before[k] == t);
            } else if k > at as int {
                assert(before[k - 1] == t);
            }
        }
    }
}

/// The texts of `items`, each once, in ascending order.
pub fn ascending_texts(items: &Vec<String>) -> (r: Vec<String>)
    ensures
        ascending(r.deep_view()),
        r.deep_view().to_set() == items.deep_view().to_set(),
{
    let mut r: Vec<String> = Vec::new();
    let mut i: usize = 0;
    while i < items.len()
        invariant
            i <= items.len(),
            ascending(r.deep_view()),
            forall|t: Seq<char>| #[trigger]
                r.deep_view().contains(t) == items.deep_view().take(i as int).contains(t),
        decreases items.len() - i,
    {
        let ghost seen = items.deep_view().take(i as int);
        let ghost next = items.deep_view().take(i + 1);
        insert_text(&mut r, &items[i]);
        assert(next =~= seen.push(items.deep_view()[i as int]));
        assert forall|t: Seq<char>| #[trigger] r.deep_view().contains(t) == next.contains(t) by {
            if seen.contains(t) {
                let k = choose|k: int| 0 <= k < seen.len() && seen[k] == t;
                assert(next[k] == t);
            }
            if t == items.deep_view()[i as int] {
                assert(next[i as int] == t);
            }
            if next.contains(t) {
                let k = choose|k: int| 0 <= k < next.len() && next[k] == t;
                if k < i {
                    assert(seen[k] == t);
                }
            }
        }
        i = i + 1;
    }
    assert(items.deep_view().take(i as int) =~= items.deep_view());
    assert(r.deep_view().to_set() =~= items.deep_view().to_set());
    r
}

/// Ascending lists with the same members are the same list.
pub proof fn lemma_ascending_unique(a: Seq<Seq<char>>, b: Seq<Seq<char>>)
    requires
        ascending(a),
        ascending(b),
        a.to_set() == b.to_set(),
    ensures
        a == b,
    decreases a.len(),
{
    assert forall|t: Seq<char>| a.contains(t) == b.contains(t) by {
        assert(a.to_set().contains(t) == a.contains(t));
        assert(b.to_set().contains(t) == b.contains(t));
    }
    if a.len() == 0 {
        if b.len() > 0 {
            assert(b.contains(b[0]));
        }
        assert(a =~= b);
    } else if b.len() == 0 {
        assert(a.contains(a[0]));
    } else {
        let x = a.last();
        let y = b.last();
        assert(a.contains(x) && b.contains(y));
        let i = choose|i: int| 0 <= i < b.len() && b[i] == x;
        let j = choose|j: int| 0 <= j < a.len() && a[j] == y;
        if x != y {
            assert(precedes(b[i], y));
            assert(precedes(a[j], x));
            lemma_precedes_transitive(x, y, x);
            lemma_precedes_irreflexive(x);
        }
        let c = a.drop_last();
        let d = b.drop_last();
        assert forall|t: Seq<char>| c.contains(t) == d.contains(t) by {
            lemma_drop_last_members(a, t);
            lemma_drop_last_members(b, t);
        }
        assert(c.to_set() =~= d.to_set());
        lemma_ascending_unique(c, d);
        assert(a =~= c.push(x));
        assert(b =~= d.push(y));
    }
}

/// A list holds the texts of another, in strictly ascending order.
pub open spec fn is_ascending_of(t: Seq<Seq<char>>, s: Seq<Seq<char>>) -> bool {
    ascending(t) && t.to_set() == s.to_set()
}

/// The texts of a list in strictly ascending order.
pub open spec fn ascending_of(s: Seq<Seq<char>>) -> Seq<Seq<char>> {
    choose|t: Seq<Seq<char>>| #[trigger] is_ascending_of(t, s)
}

/// There is one such list.
pub proof fn lemma_ascending_of(t: Seq<Seq<char>>, s: Seq<Seq<char>>)
    requires
        is_ascending_of(t, s),
    ensures
        ascending_of(s) == t,
{
    lemma_ascending_unique(ascending_of(s), t);
}

proof fn lemma_drop_last_members(a: Seq<Seq<char>>, t: Seq<char>)
    requires
        ascending(a),
        a.len() > 0,
    ensures
        a.drop_last().contains(t) == (a.contains(t) && t != a.last()),
{
    if a.contains(t) && t != a.last() {
        let k = choose|k: int| 0 <= k < a.len() && a[k] == t;
        assert(a.drop_last()[k] == t);
    }
    if a.drop_last().contains(t) {
        let k = choose|k: int| 0 <= k < a.drop_last().len() && a.drop_last()[k] == t;
        assert(a[k] == t);
        assert(precedes(a[k], a[a.len() - 1]));
        lemma_precedes_irreflexive(t);
    }
}

/// The parts of a text between the occurrences of a separator.
pub open spec fn split(s: Seq<char>, separator: char) -> Seq<Seq<char>>
    decreases s.len(),
{
    if s.len() == 0 {
        seq![Seq::empty()]
    } else {
        let parts = split(s.drop_last(), separator);
        if s.last() == separator {
            parts.push(Seq::empty())
        } else {
            parts.drop_last().push(parts.last().push(s.last()))
        }
    }
}

/// Cuts `s` at every occurrence of `separator`.
pub fn split_text(s: &str, separator: char) -> (r: Vec<String>)
    ensures
        r.deep_view() == split(s@, separator),
{
    let v = characters(s);
    let mut parts: Vec<String> = Vec::new();
    let mut current = String::new();
    let mut i: usize = 0;
    assert(s@.take(0) =~= Seq::<char>::empty());
    assert(parts.deep_view().push(current@) =~= split(s@.take(0), separator));
    while i < v.len()
        invariant
            i <= v.len(),
            v@ == s@,
            parts.deep_view().push(current@) == split(s@.take(i as int), separator),
        decreases v.len() - i,
    {
        let ghost now = s@.take(i + 1);
        let ghost done = parts;
        let ghost whole = parts.deep_view().push(current@);
        assert(now.drop_last() =~= s@.take(i as int));
        assert(now.last() == v@[i as int]);
        assert(whole.drop_last() =~= parts.deep_view());
        if v[i] == separator {
            let ghost piece = current;
            parts.push(current);
            proof {
                lemma_push_view(done, piece, parts);
            }
            current = String::new();
        } else {
            current.push(v[i]);
        }
        assert(parts.deep_view().push(current@) =~= split(now, separator));
        i = i + 1;
    }
    assert(s@.take(i as int) =~= s@);
    let ghost done = parts;
    let ghost piece = current;
    parts.push(current);
    proof {
        lemma_push_view(done, piece, parts);
    }
    parts
}

/// A relative path in normal form: parts joined by `/`, none of them empty, `.` or `..`, and no
/// backslash.
pub open spec fn is_plain_relative_path(s: Seq<char>) -> bool {
    &&& s.len() > 0
    &&& s[0] != '/'
    &&& !s.contains('\\')
    &&& forall|i: int|
        0 <= i < split(s, '/').len() ==> {
            let part = #[trigger] split(s, '/')[i];
            part.len() > 0 && part != "."@ && part != ".."@
        }
}

/// Tells whether `s` is a relative path in normal form.
pub fn plain_relative_path(s: &str) -> (r: bool)
    ensures
        r == is_plain_relative_path(s@),
{
    let v = characters(s);
    if v.len() == 0 || v[0] == '/' || has_char(s, '\\') {
        return false;
    }
    let parts = split_text(s, '/');
    let mut i: usize = 0;
    while i < parts.len()
        invariant
            i <= parts.len(),
            parts.deep_view() == split(s@, '/'),
            forall|j: int|
                0 <= j < i ==> {
                    let part = #[trigger] split(s@, '/')[j];
                    part.len() > 0 && part != "."@ && part != ".."@
                },
        decreases parts.len() - i,
    {
        assert(split(s@, '/')[i as int] == parts@[i as int]@);
        if parts[i].as_str().is_empty() || same_text(parts[i].as_str(), ".") || same_text(
            parts[i].as_str(),
            "..",
        ) {
            return false;
        }
        i = i + 1;
    }
    true
}

/// The character of one decimal digit.
pub open spec fn digit(d: int) -> char {
    if d == 0 {
        '0'
    } else if d == 1 {
        '1'
    } else if d == 2 {
        '2'
    } else if d == 3 {
        '3'
    } else if d == 4 {
        '4'
    } else if d == 5 {
        '5'
    } else if d == 6 {
        '6'
    } else if d == 7 {
        '7'
    } else if d == 8 {
        '8'
    } else {
        '9'
    }
}

/// A number in decimal digits, without leading zeros.
pub open spec fn decimal(n: nat) -> Seq<char>
    decreases n,
{
    if n < 10 {
        seq![digit(n as int)]
    } else {
        decimal(n / 10).push(digit((n % 10) as int))
    }
}

fn digit_char(d: u64) -> (c: char)
    requires
        d < 10,
    ensures
        c == digit(d as int),
{
    match d {
        0 => '0',
        1 => '1',
        2 => '2',
        3 => '3',
        4 => '4',
        5 => '5',
        6 => '6',
        7 => '7',
        8 => '8',
        _ => '9',
    }
}

/// Writes `n` in decimal digits.
pub fn decimal_text(n: u64) -> (s: String)
    ensures
        s@ == decimal(n as nat),
    decreases n,
{
    if n < 10 {
        let mut s = String::new();
        s.push(digit_char(n));
        assert(s@ =~= seq![digit(n as int)]);
        s
    } else {
        let mut s = decimal_text(n / 10);
        s.push(digit_char(n % 10));
        s
    }
}

/// A decimal number holds digits alone, at least one.
pub proof fn lemma_decimal_digits(n: nat)
    ensures
        decimal(n).len() > 0,
        forall|i: int| 0 <= i < decimal(n).len() ==> '0' <= #[trigger] decimal(n)[i] && decimal(n)[i] <= '9',
    decreases n,
{
    if n >= 10 {
        lemma_decimal_digits(n / 10);
    }
}

/// A number of at most `d` digits is written with at most `d` digits.
pub proof fn lemma_decimal_length(n: nat, d: nat)
    requires
        d > 0,
        n < ten_to(d),
    ensures
        decimal(n).len() <= d,
    decreases d,
{
    if n >= 10 {
        if d == 1 {
            reveal_with_fuel(ten_to, 2);
        } else {
            assert(ten_to(d) == 10 * ten_to((d - 1) as nat));
            lemma_decimal_length(n / 10, (d - 1) as nat);
        }
    }
}

/// Ten to the power of `d`.
pub open spec fn ten_to(d: nat) -> nat
    decreases d,
{
    if d == 0 {
        1
    } else {
        10 * ten_to((d - 1) as nat)
    }
}

/// A text of ASCII characters takes one byte for each of them.
pub proof fn lemma_ascii_byte_len(s: Seq<char>)
    requires
        vstd::utf8::is_ascii_chars(s),
    ensures
        byte_len(s) == s.len(),
{
    vstd::utf8::is_ascii_chars_encode_utf8(s);
}

/// The encoding of two texts in a row is that of the one and then that of the other.
pub proof fn lemma_encoding_adds(a: Seq<char>, b: Seq<char>)
    ensures
        encode_utf8(a + b) == encode_utf8(a) + encode_utf8(b),
    decreases a.len(),
{
    if a.len() == 0 {
        assert(a + b =~= b);
        assert(encode_utf8(a) + encode_utf8(b) =~= encode_utf8(b));
    } else {
        lemma_encoding_adds(a.drop_first(), b);
        assert((a + b).drop_first() =~= a.drop_first() + b);
        assert(encode_utf8(a + b) =~= encode_utf8(a) + encode_utf8(b));
    }
}

/// Two texts in a row take the bytes of both.
pub proof fn lemma_byte_len_adds(a: Seq<char>, b: Seq<char>)
    ensures
        byte_len(a + b) == byte_len(a) + byte_len(b),
{
    lemma_encoding_adds(a, b);
}

/// The number of bytes that a character takes in UTF-8.
pub open spec fn char_width(c: char) -> nat {
    if c <= '\u{7f}' {
        1
    } else if c <= '\u{7ff}' {
        2
    } else if c <= '\u{ffff}' {
        3
    } else {
        4
    }
}

/// A text takes the bytes of its characters.
pub proof fn lemma_byte_len_push(s: Seq<char>, c: char)
    ensures
        byte_len(s.push(c)) == byte_len(s) + char_width(c),
{
    let one = seq![c];
    assert(s.push(c) =~= s + one);
    lemma_byte_len_adds(s, one);
    assert(one.drop_first() =~= Seq::empty());
    assert(encode_utf8(one) =~= vstd::utf8::encode_scalar(c as u32) + encode_utf8(one.drop_first()));
    assert(encode_utf8(one.drop_first()).len() == 0);
    vstd::utf8::char_is_scalar(c);
}

/// The number of bytes that `c` takes in UTF-8.
pub fn width_of(c: char) -> (n: usize)
    ensures
        n == char_width(c),
{
    if c <= '\u{7f}' {
        1
    } else if c <= '\u{7ff}' {
        2
    } else if c <= '\u{ffff}' {
        3
    } else {
        4
    }
}

} // verus!
