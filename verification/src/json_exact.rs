//! JSON texts tell what was written: different values have different texts, whatever stands behind
//! them.

use vstd::prelude::*;

use crate::json::{
    comma_separated, escape_of, escaped, hex_digit, item_texts, json_string_of, Encode,
};
use crate::text::{decimal, digit, lemma_decimal_digits};

verus! {

proof fn lemma_escape(c: char, d: char, x: Seq<char>, y: Seq<char>)
    requires
        escape_of(c) + x == escape_of(d) + y,
    ensures
        c == d,
        x == y,
{
    let u = escape_of(c) + x;
    let w = escape_of(d) + y;
    assert(escape_of(c).len() > 0 && escape_of(d).len() > 0);
    assert(u[0] == escape_of(c)[0] && w[0] == escape_of(d)[0]);
    if u[0] == '\\' {
        assert(escape_of(c).len() >= 2 && escape_of(d).len() >= 2);
        assert(u[1] == escape_of(c)[1] && w[1] == escape_of(d)[1]);
        if u[1] == 'u' {
            assert(escape_of(c).len() == 6 && escape_of(d).len() == 6);
            assert(u[4] == escape_of(c)[4] && w[4] == escape_of(d)[4]);
            assert(u[5] == escape_of(c)[5] && w[5] == escape_of(d)[5]);
            lemma_hex_digit(c as int / 16, d as int / 16);
            lemma_hex_digit(c as int % 16, d as int % 16);
            assert(c as int == d as int);
        }
    }
    assert(c == d);
    assert(x =~= u.skip(escape_of(c).len() as int));
    assert(y =~= w.skip(escape_of(d).len() as int));
}

proof fn lemma_hex_digit(a: int, b: int)
    requires
        0 <= a < 16,
        0 <= b < 16,
        hex_digit(a) == hex_digit(b),
    ensures
        a == b,
{
}

proof fn lemma_escaped(s: Seq<char>, t: Seq<char>, x: Seq<char>, y: Seq<char>)
    requires
        escaped(s) + (seq!['"'] + x) == escaped(t) + (seq!['"'] + y),
    ensures
        s == t,
        x == y,
    decreases s.len(),
{
    let u = escaped(s) + (seq!['"'] + x);
    let w = escaped(t) + (seq!['"'] + y);
    if s.len() > 0 {
        assert(u[0] == escape_of(s[0])[0]);
    } else {
        assert(u[0] == '"');
    }
    if t.len() > 0 {
        assert(w[0] == escape_of(t[0])[0]);
    } else {
        assert(w[0] == '"');
    }
    if s.len() == 0 {
        assert(t.len() == 0);
        assert(s =~= t);
        assert(x =~= u.skip(1));
        assert(y =~= w.skip(1));
    } else {
        assert(t.len() > 0);
        let a = escaped(s.skip(1)) + (seq!['"'] + x);
        let b = escaped(t.skip(1)) + (seq!['"'] + y);
        assert(u =~= escape_of(s[0]) + a);
        assert(w =~= escape_of(t[0]) + b);
        lemma_escape(s[0], t[0], a, b);
        lemma_escaped(s.skip(1), t.skip(1), x, y);
        assert(s =~= seq![s[0]] + s.skip(1));
        assert(t =~= seq![t[0]] + t.skip(1));
    }
}

/// The text of a string tells the string and where it ends.
pub proof fn lemma_strings_are_told(s: Seq<char>, t: Seq<char>, x: Seq<char>, y: Seq<char>)
    requires
        json_string_of(s) + x == json_string_of(t) + y,
    ensures
        s == t,
        x == y,
{
    let u = json_string_of(s) + x;
    let w = json_string_of(t) + y;
    assert(escaped(s) + (seq!['"'] + x) =~= u.skip(1));
    assert(escaped(t) + (seq!['"'] + y) =~= w.skip(1));
    lemma_escaped(s, t, x, y);
}

proof fn lemma_first_of_many(items: Seq<Seq<char>>)
    requires
        items.len() > 1,
    ensures
        comma_separated(items) == items[0].push(',') + comma_separated(items.skip(1)),
    decreases items.len(),
{
    let rest = items.drop_last();
    if items.len() == 2 {
        assert(rest[0] == items[0]);
        assert(items.skip(1)[0] == items[1]);
        assert(comma_separated(rest) == items[0]);
        assert(comma_separated(items.skip(1)) == items[1]);
        assert(comma_separated(items) =~= items[0].push(',') + comma_separated(items.skip(1)));
    } else {
        lemma_first_of_many(rest);
        assert(rest.skip(1) =~= items.skip(1).drop_last());
        assert(items.skip(1).last() == items.last());
        assert(comma_separated(items) =~= items[0].push(',') + comma_separated(items.skip(1)));
    }
}

proof fn lemma_lists(a: Seq<Seq<char>>, b: Seq<Seq<char>>, x: Seq<char>, y: Seq<char>)
    requires
        comma_separated(item_texts::<String>(a)) + (seq![']'] + x) == comma_separated(
            item_texts::<String>(b),
        ) + (seq![']'] + y),
    ensures
        a == b,
        x == y,
    decreases a.len(),
{
    let p = item_texts::<String>(a);
    let q = item_texts::<String>(b);
    let u = comma_separated(p) + (seq![']'] + x);
    let w = comma_separated(q) + (seq![']'] + y);
    let (rest_a, rest_b) = (lemma_list_begins(a, x), lemma_list_begins(b, y));
    if a.len() == 0 || b.len() == 0 {
        assert(u[0] == w[0]);
        assert(a.len() == 0 && b.len() == 0);
        assert(a =~= b);
        assert(x =~= u.skip(1));
        assert(y =~= w.skip(1));
    } else {
        lemma_strings_are_told(a[0], b[0], rest_a, rest_b);
        assert(rest_a[0] == rest_b[0]);
        if a.len() == 1 {
            assert(b.len() == 1);
            assert(a =~= b);
            assert(x =~= rest_a.skip(1));
            assert(y =~= rest_b.skip(1));
        } else {
            assert(b.len() > 1);
            let c = a.skip(1);
            let d = b.skip(1);
            assert(comma_separated(item_texts::<String>(c)) + (seq![']'] + x) =~= rest_a.skip(1));
            assert(comma_separated(item_texts::<String>(d)) + (seq![']'] + y) =~= rest_b.skip(1));
            lemma_lists(c, d, x, y);
            assert(a =~= seq![a[0]] + c);
            assert(b =~= seq![b[0]] + d);
        }
    }
}

/// What stands behind the first string of a list.
proof fn lemma_list_begins(a: Seq<Seq<char>>, x: Seq<char>) -> (rest: Seq<char>)
    ensures
        ({
            let u = comma_separated(item_texts::<String>(a)) + (seq![']'] + x);
            &&& a.len() == 0 ==> u[0] == ']'
            &&& a.len() > 0 ==> u == json_string_of(a[0]) + rest && u[0] == '"'
            &&& a.len() == 1 ==> rest == seq![']'] + x
            &&& a.len() > 1 ==> rest == seq![','] + (comma_separated(
                item_texts::<String>(a.skip(1)),
            ) + (seq![']'] + x))
        }),
{
    let p = item_texts::<String>(a);
    let u = comma_separated(p) + (seq![']'] + x);
    if a.len() == 0 {
        assert(u[0] == ']');
        x
    } else if a.len() == 1 {
        assert(p[0] == json_string_of(a[0]));
        seq![']'] + x
    } else {
        assert(p[0] == json_string_of(a[0]));
        lemma_first_of_many(p);
        assert(p.skip(1) =~= item_texts::<String>(a.skip(1)));
        let rest = seq![','] + (comma_separated(p.skip(1)) + (seq![']'] + x));
        assert(u =~= json_string_of(a[0]) + rest);
        rest
    }
}

/// The text of a list of strings tells the strings and where the list ends.
pub proof fn lemma_string_lists_are_told(
    a: Seq<Seq<char>>,
    b: Seq<Seq<char>>,
    x: Seq<char>,
    y: Seq<char>,
)
    requires
        <Vec<String> as Encode>::json(a) + x == <Vec<String> as Encode>::json(b) + y,
    ensures
        a == b,
        x == y,
{
    let u = <Vec<String> as Encode>::json(a) + x;
    let w = <Vec<String> as Encode>::json(b) + y;
    assert(comma_separated(item_texts::<String>(a)) + (seq![']'] + x) =~= u.skip(1));
    assert(comma_separated(item_texts::<String>(b)) + (seq![']'] + y) =~= w.skip(1));
    lemma_lists(a, b, x, y);
}

/// Different numbers have different digits.
pub proof fn lemma_numbers_are_told(m: nat, n: nat)
    requires
        decimal(m) == decimal(n),
    ensures
        m == n,
    decreases m,
{
    let p = decimal(m);
    let q = decimal(n);
    if m < 10 || n < 10 {
        if m >= 10 {
            lemma_decimal_digits(m / 10);
            assert(p.len() > 1);
        }
        if n >= 10 {
            lemma_decimal_digits(n / 10);
            assert(q.len() > 1);
        }
        assert(p[0] == digit(m as int) && q[0] == digit(n as int));
    } else {
        assert(p.drop_last() =~= decimal(m / 10));
        assert(q.drop_last() =~= decimal(n / 10));
        assert(p.last() == digit((m % 10) as int) && q.last() == digit((n % 10) as int));
        lemma_numbers_are_told(m / 10, n / 10);
    }
}

/// The text of a number that may be missing tells the number.
pub proof fn lemma_optional_numbers_are_told(a: Option<u32>, b: Option<u32>)
    requires
        <Option<u32> as Encode>::json(a) == <Option<u32> as Encode>::json(b),
    ensures
        a == b,
{
    reveal_strlit("null");
    if let Some(m) = a {
        lemma_decimal_digits(m as nat);
        assert('0' <= decimal(m as nat)[0] && decimal(m as nat)[0] <= '9');
    }
    if let Some(n) = b {
        lemma_decimal_digits(n as nat);
        assert('0' <= decimal(n as nat)[0] && decimal(n as nat)[0] <= '9');
    }
    if a is Some && b is Some {
        lemma_numbers_are_told(a->0 as nat, b->0 as nat);
    }
}

} // verus!
