//! JSON text: what strings and string lists look like when written, and what a
//! field of a parsed object holds.

use crate::text;
use vstd::prelude::*;
use vstd::string::*;

verus! {

/// The lowercase hexadecimal digit of `n`.
pub open spec fn hex_digit(n: nat) -> char {
    if n < 10 {
        (48 + n) as char
    } else {
        (87 + n) as char
    }
}

/// How one character of a JSON string is written.
pub open spec fn escaped_char(c: char) -> Seq<char> {
    if c == '"' {
        seq!['\\', '"']
    } else if c == '\\' {
        seq!['\\', '\\']
    } else if c == '\u{8}' {
        seq!['\\', 'b']
    } else if c == '\t' {
        seq!['\\', 't']
    } else if c == '\n' {
        seq!['\\', 'n']
    } else if c == '\u{c}' {
        seq!['\\', 'f']
    } else if c == '\r' {
        seq!['\\', 'r']
    } else if c <= '\u{1f}' {
        seq!['\\', 'u', '0', '0', hex_digit(c as nat / 16), hex_digit(c as nat % 16)]
    } else {
        seq![c]
    }
}

/// The characters of `s`, each escaped as in a JSON string.
pub open spec fn escaped(s: Seq<char>) -> Seq<char>
    decreases s.len(),
{
    if s.len() == 0 {
        Seq::empty()
    } else {
        escaped(s.drop_last()) + escaped_char(s.last())
    }
}

/// `s` written as a JSON string.
pub open spec fn string_json(s: Seq<char>) -> Seq<char> {
    seq!['"'] + escaped(s) + seq!['"']
}

/// The JSON strings of `items`, each after the first preceded by a comma.
pub open spec fn joined_json(items: Seq<Seq<char>>) -> Seq<char>
    decreases items.len(),
{
    if items.len() == 0 {
        Seq::empty()
    } else if items.len() == 1 {
        string_json(items[0])
    } else {
        joined_json(items.drop_last()) + seq![','] + string_json(items.last())
    }
}

/// `items` written as a JSON array of strings.
pub open spec fn array_json(items: Seq<Seq<char>>) -> Seq<char> {
    seq!['['] + joined_json(items) + seq![']']
}

/// The display form of `serde_json::Value` for a string: quotation marks around
/// the characters, of which the quotation mark, the backslash and the controls
/// below U+0020 are escaped.
#[verifier::external_body]
pub(crate) fn string_text(s: &str) -> (out: String)
    ensures
        out@ == string_json(s@),
{
    serde_json::Value::from(s).to_string()
}

/// The display form of `serde_json::Value` for an array of strings: the strings
/// in their order, separated by commas, between brackets.
#[verifier::external_body]
pub(crate) fn array_text(items: &[&str]) -> (out: String)
    ensures
        out@ == array_json(text::views(items@)),
{
    serde_json::Value::from(items).to_string()
}

/// A string is written from its first character on.
proof fn lemma_escaped_first(s: Seq<char>)
    requires
        s.len() > 0,
    ensures
        escaped(s) == escaped_char(s[0]) + escaped(s.drop_first()),
    decreases s.len(),
{
    reveal_with_fuel(escaped, 2);
    if s.len() == 1 {
        assert(s.drop_last() =~= Seq::empty());
        assert(s.drop_first() =~= Seq::empty());
        assert(escaped(s) =~= escaped_char(s[0]));
    } else {
        lemma_escaped_first(s.drop_last());
        assert(s.drop_last().drop_first() =~= s.drop_first().drop_last());
        assert(escaped(s) =~= escaped_char(s[0]) + escaped(s.drop_first()));
    }
}

/// No written character is the beginning of another one, nor a quotation mark.
proof fn lemma_escaped_char(c: char, x: Seq<char>, d: char, y: Seq<char>)
    requires
        escaped_char(c) + x == escaped_char(d) + y,
    ensures
        c == d,
        x == y,
        (escaped_char(c) + x)[0] != '"',
{
    let a = escaped_char(c) + x;
    let b = escaped_char(d) + y;
    assert(a[0] == escaped_char(c)[0] && b[0] == escaped_char(d)[0]);
    if a[0] == '\\' {
        assert(a[1] == escaped_char(c)[1] && b[1] == escaped_char(d)[1]);
        if a[1] == 'u' {
            assert(a[4] == escaped_char(c)[4] && b[4] == escaped_char(d)[4]);
            assert(a[5] == escaped_char(c)[5] && b[5] == escaped_char(d)[5]);
        }
    }
    assert(c == d);
    let n = escaped_char(c).len() as int;
    assert(x =~= a.skip(n));
    assert(y =~= b.skip(n));
}

/// Where a written string ends is told by the text itself.
proof fn lemma_escaped_end(s: Seq<char>, x: Seq<char>, t: Seq<char>, y: Seq<char>)
    requires
        escaped(s) + seq!['"'] + x == escaped(t) + seq!['"'] + y,
    ensures
        s == t,
        x == y,
    decreases s.len(),
{
    let a = escaped(s) + seq!['"'] + x;
    let b = escaped(t) + seq!['"'] + y;
    if s.len() > 0 {
        lemma_escaped_first(s);
    }
    if t.len() > 0 {
        lemma_escaped_first(t);
    }
    if s.len() > 0 && t.len() > 0 {
        let rest_a = escaped(s.drop_first()) + seq!['"'] + x;
        let rest_b = escaped(t.drop_first()) + seq!['"'] + y;
        assert(a =~= escaped_char(s[0]) + rest_a);
        assert(b =~= escaped_char(t[0]) + rest_b);
        lemma_escaped_char(s[0], rest_a, t[0], rest_b);
        lemma_escaped_end(s.drop_first(), x, t.drop_first(), y);
        assert(s =~= seq![s[0]] + s.drop_first());
        assert(t =~= seq![t[0]] + t.drop_first());
    } else if s.len() > 0 {
        let rest_a = escaped(s.drop_first()) + seq!['"'] + x;
        assert(a =~= escaped_char(s[0]) + rest_a);
        lemma_escaped_char(s[0], rest_a, s[0], rest_a);
        assert(b[0] == '"');
    } else if t.len() > 0 {
        let rest_b = escaped(t.drop_first()) + seq!['"'] + y;
        assert(b =~= escaped_char(t[0]) + rest_b);
        lemma_escaped_char(t[0], rest_b, t[0], rest_b);
        assert(a[0] == '"');
    } else {
        assert(s =~= t);
        assert(x =~= a.skip(1));
        assert(y =~= b.skip(1));
    }
}

/// A written string and where it ends are told by the text.
pub proof fn lemma_string_end(s: Seq<char>, x: Seq<char>, t: Seq<char>, y: Seq<char>)
    requires
        string_json(s) + x == string_json(t) + y,
    ensures
        s == t,
        x == y,
{
    assert((string_json(s) + x).skip(1) =~= escaped(s) + seq!['"'] + x);
    assert((string_json(t) + y).skip(1) =~= escaped(t) + seq!['"'] + y);
    lemma_escaped_end(s, x, t, y);
}

/// Only a quotation mark is written with one, as the second character.
proof fn lemma_quote_in_char(c: char, j: int)
    requires
        0 <= j < escaped_char(c).len(),
        escaped_char(c)[j] == '"',
    ensures
        j == 1,
        escaped_char(c)[0] == '\\',
{
    if c != '"' && c <= '\u{1f}' {
        let high = c as nat / 16;
        let low = c as nat % 16;
        assert(high < 2 && low < 16);
        assert(hex_digit(high) != '"' && hex_digit(low) != '"');
    }
}

/// A quotation mark in a string is written behind a backslash.
pub proof fn lemma_quotes_are_escaped(s: Seq<char>)
    ensures
        forall|k: int|
            0 <= k < escaped(s).len() && #[trigger] escaped(s)[k] == '"' ==> k > 0 && escaped(s)[k
                - 1] == '\\',
    decreases s.len(),
{
    if s.len() > 0 {
        let init = escaped(s.drop_last());
        let last = escaped_char(s.last());
        lemma_quotes_are_escaped(s.drop_last());
        assert(escaped(s) == init + last);
        assert forall|k: int|
            0 <= k < escaped(s).len() && #[trigger] escaped(s)[k] == '"' implies k > 0 && escaped(
            s,
        )[k - 1] == '\\' by {
            if k < init.len() {
                assert(init[k] == '"');
                assert(escaped(s)[k - 1] == init[k - 1]);
            } else {
                let j = k - init.len();
                lemma_quote_in_char(s.last(), j);
                assert(escaped(s)[k - 1] == last[0]);
            }
        }
    }
}

/// A list is written from its first string on.
proof fn lemma_joined_first(items: Seq<Seq<char>>)
    requires
        items.len() > 0,
    ensures
        joined_json(items) == string_json(items[0]) + (if items.len() == 1 {
            Seq::empty()
        } else {
            seq![','] + joined_json(items.drop_first())
        }),
    decreases items.len(),
{
    reveal_with_fuel(joined_json, 2);
    if items.len() == 1 {
        assert(joined_json(items) =~= string_json(items[0]) + Seq::<char>::empty());
    } else if items.len() == 2 {
        assert(items.drop_last() =~= seq![items[0]]);
        assert(items.drop_first() =~= seq![items[1]]);
        assert(joined_json(items) =~= string_json(items[0]) + (seq![','] + joined_json(
            items.drop_first(),
        )));
    } else {
        lemma_joined_first(items.drop_last());
        assert(items.drop_last().drop_first() =~= items.drop_first().drop_last());
        assert(joined_json(items) =~= string_json(items[0]) + (seq![','] + joined_json(
            items.drop_first(),
        )));
    }
}

/// Two lists that are written alike, up to the closing bracket, are the same.
proof fn lemma_joined_faithful(a: Seq<Seq<char>>, b: Seq<Seq<char>>)
    requires
        joined_json(a) + seq![']'] == joined_json(b) + seq![']'],
    ensures
        a == b,
    decreases a.len(),
{
    let x = joined_json(a) + seq![']'];
    let y = joined_json(b) + seq![']'];
    if a.len() > 0 {
        lemma_joined_first(a);
        assert(x[0] == '"');
    }
    if b.len() > 0 {
        lemma_joined_first(b);
        assert(y[0] == '"');
    }
    if a.len() > 0 && b.len() > 0 {
        let rest_a = (if a.len() == 1 {
            Seq::empty()
        } else {
            seq![','] + joined_json(a.drop_first())
        }) + seq![']'];
        let rest_b = (if b.len() == 1 {
            Seq::empty()
        } else {
            seq![','] + joined_json(b.drop_first())
        }) + seq![']'];
        assert(x.skip(1) =~= escaped(a[0]) + seq!['"'] + rest_a);
        assert(y.skip(1) =~= escaped(b[0]) + seq!['"'] + rest_b);
        lemma_escaped_end(a[0], rest_a, b[0], rest_b);
        if a.len() == 1 {
            assert(rest_a[0] == ']');
            assert(b.len() == 1);
        } else {
            assert(rest_a[0] == ',');
            assert(b.len() > 1);
            assert(rest_a.skip(1) =~= joined_json(a.drop_first()) + seq![']']);
            assert(rest_b.skip(1) =~= joined_json(b.drop_first()) + seq![']']);
            lemma_joined_faithful(a.drop_first(), b.drop_first());
        }
        assert(a =~= seq![a[0]] + a.drop_first());
        assert(b =~= seq![b[0]] + b.drop_first());
    } else {
        if a.len() == 0 {
            assert(x[0] == ']');
        }
        if b.len() == 0 {
            assert(y[0] == ']');
        }
        assert(a =~= b);
    }
}

/// A JSON array tells which strings it was written from: two lists that are
/// written alike are the same.
pub proof fn law_array_is_faithful(a: Seq<Seq<char>>, b: Seq<Seq<char>>)
    requires
        array_json(a) == array_json(b),
    ensures
        a == b,
{
    assert(array_json(a).skip(1) =~= joined_json(a) + seq![']']);
    assert(array_json(b).skip(1) =~= joined_json(b) + seq![']']);
    lemma_joined_faithful(a, b);
}

/// What a key of a JSON object stands for, as far as decisions depend on it.
pub enum JsonField {
    /// The text is no JSON.
    Unparsable,
    /// The text is no object, or an object without the key.
    Absent,
    /// A string.
    Text(String),
    /// An integer from 0 to `u64::MAX`.
    Unsigned(u64),
    /// An array with this many items.
    Items(usize),
    /// Any other value.
    Other,
}

/// The model of `JsonField`.
pub enum JsonFieldView {
    Unparsable,
    Absent,
    Text(Seq<char>),
    Unsigned(nat),
    Items(nat),
    Other,
}

impl View for JsonField {
    type V = JsonFieldView;

    open spec fn view(&self) -> JsonFieldView {
        match *self {
            JsonField::Unparsable => JsonFieldView::Unparsable,
            JsonField::Absent => JsonFieldView::Absent,
            JsonField::Text(s) => JsonFieldView::Text(s@),
            JsonField::Unsigned(n) => JsonFieldView::Unsigned(n as nat),
            JsonField::Items(n) => JsonFieldView::Items(n as nat),
            JsonField::Other => JsonFieldView::Other,
        }
    }
}

/// What `serde_json` reads from the JSON text `text` under `key`.
pub uninterp spec fn field_of(text: Seq<char>, key: Seq<char>) -> JsonFieldView;

/// `serde_json::from_str` and `Value::get`: the value that the object in `text`
/// has under `key`. Which texts parse, and to what, is left to the name.
#[verifier::external_body]
pub(crate) fn field(text: &str, key: &str) -> (r: JsonField)
    ensures
        r@ == field_of(text@, key@),
{
    let Ok(value) = serde_json::from_str::<serde_json::Value>(text) else {
        return JsonField::Unparsable;
    };
    match value.get(key) {
        None => JsonField::Absent,
        Some(serde_json::Value::String(s)) => JsonField::Text(s.clone()),
        Some(serde_json::Value::Array(items)) => JsonField::Items(items.len()),
        Some(serde_json::Value::Number(n)) => match n.as_u64() {
            Some(n) => JsonField::Unsigned(n),
            None => JsonField::Other,
        },
        Some(_) => JsonField::Other,
    }
}

} // verus!
