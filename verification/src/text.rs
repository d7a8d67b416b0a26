//! Text as sequences of characters: the handful of string operations that the
//! rest of the library decides with, each with an exact model.

use vstd::prelude::*;
use vstd::slice::slice_subrange;
use vstd::string::*;
use vstd::utf8::*;

verus! {

/// `String::push` appends one character to the end of the string.
pub assume_specification[ String::push ](s: &mut String, c: char)
    ensures
        final(s)@ == old(s)@.push(c),
;

/// Number of bytes of the UTF-8 encoding of `s`.
pub open spec fn byte_len(s: Seq<char>) -> nat {
    encode_utf8(s).len()
}

/// Number of bytes that `s` occupies.
pub fn len_bytes(s: &str) -> (n: usize)
    ensures
        n == byte_len(s@),
{
    s.as_bytes().len()
}

/// The bytes of two texts add up when one is put behind the other.
pub proof fn lemma_byte_len_concat(a: Seq<char>, b: Seq<char>)
    ensures
        byte_len(a + b) == byte_len(a) + byte_len(b),
    decreases a.len(),
{
    if a.len() == 0 {
        assert(a + b == b);
    } else {
        lemma_byte_len_concat(a.drop_first(), b);
        assert((a + b).drop_first() == a.drop_first() + b);
    }
}

/// A text of ASCII characters has as many bytes as characters.
pub proof fn lemma_byte_len_ascii(s: Seq<char>)
    requires
        is_ascii_chars(s),
    ensures
        byte_len(s) == s.len(),
{
    is_ascii_chars_encode_utf8(s);
}

/// `String::from_utf8` accepts the bytes that are valid UTF-8 and gives the
/// characters that they encode.
#[verifier::external_body]
pub(crate) fn from_utf8(bytes: Vec<u8>) -> (r: Option<String>)
    ensures
        r is Some <==> valid_utf8(bytes@),
        r matches Some(s) ==> s@ == decode_utf8(bytes@),
{
    String::from_utf8(bytes).ok()
}

/// The characters of `s`.
pub fn chars_of(s: &str) -> (out: Vec<char>)
    ensures
        out@ == s@,
{
    let mut out: Vec<char> = Vec::new();
    for c in it: s.chars()
        invariant
            out@ == s@.take(it.index() as int),
            it.seq() == s@,
    {
        out.push(c);
    }
    out
}

/// The string made of the characters `s`.
pub fn string_of(s: &[char]) -> (out: String)
    ensures
        out@ == s@,
{
    let mut out: String = String::new();
    for i in 0..s.len()
        invariant
            out@ == s@.take(i as int),
    {
        out.push(s[i]);
    }
    out
}

/// Whether two strings hold the same characters.
pub fn str_eq(a: &str, b: &str) -> (r: bool)
    ensures
        r == (a@ == b@),
{
    a.to_owned() == b.to_owned()
}

/// The characters with the Unicode `White_Space` property.
pub open spec fn is_whitespace(c: char) -> bool {
    ||| '\u{9}' <= c <= '\u{d}'
    ||| c == ' '
    ||| c == '\u{85}'
    ||| c == '\u{a0}'
    ||| c == '\u{1680}'
    ||| '\u{2000}' <= c <= '\u{200a}'
    ||| c == '\u{2028}'
    ||| c == '\u{2029}'
    ||| c == '\u{202f}'
    ||| c == '\u{205f}'
    ||| c == '\u{3000}'
}

/// Whether `c` is white space.
pub fn whitespace(c: char) -> (r: bool)
    ensures
        r == is_whitespace(c),
{
    ('\u{9}' <= c && c <= '\u{d}') || c == ' ' || c == '\u{85}' || c == '\u{a0}' || c
        == '\u{1680}' || ('\u{2000}' <= c && c <= '\u{200a}') || c == '\u{2028}' || c
        == '\u{2029}' || c == '\u{202f}' || c == '\u{205f}' || c == '\u{3000}'
}

/// The control characters: U+0000 to U+001F and U+007F to U+009F.
pub open spec fn is_control(c: char) -> bool {
    c <= '\u{1f}' || '\u{7f}' <= c <= '\u{9f}'
}

/// Whether `s` holds a control character.
pub open spec fn has_control(s: Seq<char>) -> bool {
    exists|i: int| 0 <= i < s.len() && is_control(#[trigger] s[i])
}

/// Whether a control character occurs in `s`.
pub fn contains_control(s: &str) -> (r: bool)
    ensures
        r == has_control(s@),
{
    for c in it: s.chars()
        invariant
            it.seq() == s@,
            forall|k: int| 0 <= k < it.index() ==> !is_control(#[trigger] s@[k]),
    {
        if c <= '\u{1f}' || ('\u{7f}' <= c && c <= '\u{9f}') {
            assert(is_control(s@[it.index() as int]));
            return true;
        }
    }
    false
}

/// `s` without its leading white space.
pub open spec fn trim_start(s: Seq<char>) -> Seq<char>
    decreases s.len(),
{
    if s.len() > 0 && is_whitespace(s[0]) {
        trim_start(s.drop_first())
    } else {
        s
    }
}

/// `s` without its trailing white space.
pub open spec fn trim_end(s: Seq<char>) -> Seq<char>
    decreases s.len(),
{
    if s.len() > 0 && is_whitespace(s.last()) {
        trim_end(s.drop_last())
    } else {
        s
    }
}

/// `s` without leading and trailing white space.
pub open spec fn trimmed(s: Seq<char>) -> Seq<char> {
    trim_end(trim_start(s))
}

/// The part of `s` that is left when white space is taken off both ends.
pub fn trim(s: &[char]) -> (out: &[char])
    ensures
        out@ == trimmed(s@),
{
    let mut start: usize = 0;
    assert(s@.skip(0) == s@);
    while start < s.len() && whitespace(s[start])
        invariant
            start <= s.len(),
            trim_start(s@) == trim_start(s@.skip(start as int)),
        decreases s.len() - start,
    {
        assert(s@.skip(start as int).drop_first() == s@.skip(start + 1));
        start += 1;
    }
    let rest = slice_subrange(s, start, s.len());
    assert(rest@ == s@.skip(start as int));
    assert(rest@ == trim_start(s@));
    let mut end: usize = rest.len();
    assert(rest@.take(end as int) == rest@);
    while end > 0 && whitespace(rest[end - 1])
        invariant
            end <= rest.len(),
            trim_end(rest@) == trim_end(rest@.take(end as int)),
        decreases end,
    {
        assert(rest@.take(end as int).drop_last() == rest@.take(end - 1));
        end -= 1;
    }
    slice_subrange(rest, 0, end)
}

/// `c` with the letters `A` to `Z` mapped to `a` to `z`.
pub open spec fn ascii_lower_char(c: char) -> char {
    if 'A' <= c <= 'Z' {
        (c as u32 + 32) as char
    } else {
        c
    }
}

/// `s` with the letters `A` to `Z` mapped to `a` to `z`.
pub open spec fn ascii_lower(s: Seq<char>) -> Seq<char> {
    s.map_values(|c: char| ascii_lower_char(c))
}

/// The ASCII lowercase of every character of `s`.
pub fn to_ascii_lower(s: &[char]) -> (out: Vec<char>)
    ensures
        out@ == ascii_lower(s@),
{
    let mut out: Vec<char> = Vec::new();
    for i in 0..s.len()
        invariant
            out@ == ascii_lower(s@.take(i as int)),
    {
        let c: char = s[i];
        let low: char = if 'A' <= c && c <= 'Z' {
            (c as u8 + 32u8) as char
        } else {
            c
        };
        assert(low == ascii_lower_char(c));
        out.push(low);
        assert(s@.take(i + 1) == s@.take(i as int).push(c));
        assert(ascii_lower(s@.take(i + 1)) =~= ascii_lower(s@.take(i as int)).push(low));
    }
    assert(s@.take(s.len() as int) == s@);
    out
}

/// Whether `s` begins with `prefix`.
pub fn starts_with(s: &[char], prefix: &str) -> (r: bool)
    ensures
        r == prefix@.is_prefix_of(s@),
{
    let mut i: usize = 0;
    for c in it: prefix.chars()
        invariant
            it.seq() == prefix@,
            i == it.index(),
            i <= s.len(),
            prefix@.take(i as int) == s@.take(i as int),
    {
        assert(c == prefix@[i as int]);
        if i >= s.len() || s[i] != c {
            assert(prefix@.len() <= s@.len() ==> s@.subrange(0, prefix@.len() as int)[i as int]
                == s@[i as int]);
            return false;
        }
        assert(prefix@.take(i + 1) == prefix@.take(i as int).push(c));
        assert(s@.take(i + 1) == s@.take(i as int).push(c));
        i += 1;
    }
    assert(prefix@.take(i as int) == prefix@);
    true
}

/// What follows `prefix` in `s`, where `s` begins with it.
pub open spec fn after_prefix(s: Seq<char>, prefix: Seq<char>) -> Option<Seq<char>> {
    if prefix.is_prefix_of(s) {
        Some(s.skip(prefix.len() as int))
    } else {
        None
    }
}

/// What follows `prefix` in `s`, where `s` begins with it.
pub fn strip_prefix<'a>(s: &'a [char], prefix: &str) -> (r: Option<&'a [char]>)
    ensures
        match r {
            Some(tail) => after_prefix(s@, prefix@) == Some(tail@),
            None => after_prefix(s@, prefix@) is None,
        },
{
    if starts_with(s, prefix) {
        let n: usize = prefix.unicode_len();
        let tail = slice_subrange(s, n, s.len());
        assert(tail@ == s@.skip(n as int));
        Some(tail)
    } else {
        None
    }
}

/// Whether `word` occurs in `s` as a run of consecutive characters.
pub open spec fn has_substring(s: Seq<char>, word: Seq<char>) -> bool {
    exists|i: int| 0 <= i <= s.len() && word.is_prefix_of(#[trigger] s.skip(i))
}

/// Whether `word` occurs in `s`.
pub fn contains(s: &[char], word: &str) -> (r: bool)
    ensures
        r == has_substring(s@, word@),
{
    let mut i: usize = 0;
    while i <= s.len()
        invariant
            i <= s.len() + 1,
            forall|k: int| 0 <= k < i ==> !word@.is_prefix_of(#[trigger] s@.skip(k)),
        decreases s.len() + 1 - i,
    {
        let tail = slice_subrange(s, i, s.len());
        assert(tail@ == s@.skip(i as int));
        if starts_with(tail, word) {
            return true;
        }
        if i == s.len() {
            return false;
        }
        i += 1;
    }
    false
}

/// The character sequences that a slice of strings holds.
pub open spec fn views(list: Seq<&str>) -> Seq<Seq<char>> {
    list.map_values(|s: &str| s@)
}

/// Whether `s` begins with one of `prefixes`.
pub open spec fn has_prefix_in(s: Seq<char>, prefixes: Seq<Seq<char>>) -> bool {
    exists|i: int| 0 <= i < prefixes.len() && (#[trigger] prefixes[i]).is_prefix_of(s)
}

/// Whether one of `words` occurs in `s`.
pub open spec fn has_substring_in(s: Seq<char>, words: Seq<Seq<char>>) -> bool {
    exists|i: int| 0 <= i < words.len() && has_substring(s, #[trigger] words[i])
}

/// Whether one of `prefixes` begins `s`.
pub fn starts_with_any(s: &[char], prefixes: &[&str]) -> (r: bool)
    ensures
        r == has_prefix_in(s@, views(prefixes@)),
{
    for i in 0..prefixes.len()
        invariant
            forall|k: int|
                0 <= k < i ==> !(#[trigger] views(prefixes@)[k]).is_prefix_of(s@),
    {
        assert(views(prefixes@)[i as int] == prefixes@[i as int]@);
        if starts_with(s, prefixes[i]) {
            return true;
        }
    }
    false
}

/// Whether one of `words` occurs in `s`.
pub fn contains_any(s: &[char], words: &[&str]) -> (r: bool)
    ensures
        r == has_substring_in(s@, views(words@)),
{
    for i in 0..words.len()
        invariant
            forall|k: int| 0 <= k < i ==> !has_substring(s@, #[trigger] views(words@)[k]),
    {
        assert(views(words@)[i as int] == words@[i as int]@);
        if contains(s, words[i]) {
            return true;
        }
    }
    false
}

/// Whether `s` is one of `list`.
pub fn is_one_of(s: &[char], list: &[&str]) -> (r: bool)
    ensures
        r == views(list@).contains(s@),
{
    for i in 0..list.len()
        invariant
            forall|k: int| 0 <= k < i ==> #[trigger] views(list@)[k] != s@,
    {
        assert(views(list@)[i as int] == list@[i as int]@);
        if same_chars(s, list[i]) {
            return true;
        }
    }
    false
}

/// Whether `s` holds exactly the characters of `word`.
pub fn same_chars(s: &[char], word: &str) -> (r: bool)
    ensures
        r == (s@ == word@),
{
    let w: Vec<char> = chars_of(word);
    if s.len() != w.len() {
        return false;
    }
    for i in 0..s.len()
        invariant
            s.len() == w.len(),
            w@ == word@,
            forall|k: int| 0 <= k < i ==> s@[k] == w@[k],
    {
        if s[i] != w[i] {
            return false;
        }
    }
    assert(s@ =~= word@);
    true
}

/// A set of characters that can be tested one at a time.
pub trait CharClass {
    /// The members of the class.
    spec fn has(&self, c: char) -> bool;

    /// Whether `c` is a member.
    fn test(&self, c: char) -> (r: bool)
        ensures
            r == self.has(c),
    ;
}

/// The white space characters.
pub struct Whitespace;

impl CharClass for Whitespace {
    open spec fn has(&self, c: char) -> bool {
        is_whitespace(c)
    }

    fn test(&self, c: char) -> (r: bool) {
        whitespace(c)
    }
}

/// The characters of a given list.
pub struct AnyOf<'a>(pub &'a [char]);

impl<'a> CharClass for AnyOf<'a> {
    open spec fn has(&self, c: char) -> bool {
        self.0@.contains(c)
    }

    fn test(&self, c: char) -> (r: bool) {
        for i in 0..self.0.len()
            invariant
                forall|k: int| 0 <= k < i ==> self.0@[k] != c,
        {
            if self.0[i] == c {
                return true;
            }
        }
        false
    }
}

/// The pieces of `s` between the characters that `sep` holds of; one more than
/// there are such characters.
pub open spec fn pieces(s: Seq<char>, sep: spec_fn(char) -> bool) -> Seq<Seq<char>>
    decreases s.len(),
{
    if s.len() == 0 {
        seq![Seq::<char>::empty()]
    } else {
        let before = pieces(s.drop_last(), sep);
        if sep(s.last()) {
            before.push(Seq::<char>::empty())
        } else {
            before.drop_last().push(before.last().push(s.last()))
        }
    }
}

/// The character sequences that a list of character lists holds.
pub open spec fn piece_views(list: Seq<Vec<char>>) -> Seq<Seq<char>> {
    list.map_values(|v: Vec<char>| v@)
}

/// `s` cut at the members of `sep`.
pub fn split<C: CharClass>(s: &[char], sep: &C) -> (out: Vec<Vec<char>>)
    ensures
        piece_views(out@) == pieces(s@, |c: char| sep.has(c)),
        out@.len() > 0,
{
    let ghost f = |c: char| sep.has(c);
    let mut done: Vec<Vec<char>> = Vec::new();
    let mut cur: Vec<char> = Vec::new();
    assert(piece_views(done@).push(cur@) =~= pieces(s@.take(0), f));
    for i in 0..s.len()
        invariant
            f == (|c: char| sep.has(c)),
            piece_views(done@).push(cur@) == pieces(s@.take(i as int), f),
    {
        let c: char = s[i];
        let ghost before = piece_views(done@).push(cur@);
        assert(s@.take(i + 1).drop_last() == s@.take(i as int));
        assert(s@.take(i + 1).last() == c);
        if sep.test(c) {
            let ghost old_done = done@;
            let ghost old_cur = cur;
            done.push(cur);
            cur = Vec::new();
            assert(piece_views(done@) =~= piece_views(old_done).push(old_cur@));
            assert(piece_views(done@).push(cur@) =~= before.push(Seq::<char>::empty()));
        } else {
            cur.push(c);
            assert(before.drop_last() =~= piece_views(done@));
        }
    }
    assert(s@.take(s.len() as int) == s@);
    let ghost old_done = done@;
    done.push(cur);
    assert(piece_views(done@) =~= piece_views(old_done).push(cur@));
    done
}

/// Whether `a` comes before `b` in the order of their characters' code points,
/// which is also the order of their UTF-8 bytes.
pub open spec fn comes_before(a: Seq<char>, b: Seq<char>) -> bool
    decreases a.len(),
{
    if b.len() == 0 {
        false
    } else if a.len() == 0 {
        true
    } else if a[0] != b[0] {
        a[0] < b[0]
    } else {
        comes_before(a.drop_first(), b.drop_first())
    }
}

/// Whether `a` comes before `b`.
pub fn is_before(a: &[char], b: &[char]) -> (r: bool)
    ensures
        r == comes_before(a@, b@),
{
    let mut i: usize = 0;
    assert(a@.skip(0) == a@ && b@.skip(0) == b@);
    while i < a.len() && i < b.len() && a[i] == b[i]
        invariant
            i <= a@.len(),
            i <= b@.len(),
            comes_before(a@, b@) == comes_before(a@.skip(i as int), b@.skip(i as int)),
        decreases a@.len() - i,
    {
        assert(a@.skip(i as int).drop_first() == a@.skip(i + 1));
        assert(b@.skip(i as int).drop_first() == b@.skip(i + 1));
        i += 1;
    }
    if i >= b.len() {
        false
    } else if i >= a.len() {
        true
    } else {
        a[i] < b[i]
    }
}

/// The order is total, and what does not come before stays so along a chain.
pub proof fn lemma_order(a: Seq<char>, b: Seq<char>, c: Seq<char>)
    ensures
        !(comes_before(a, b) && comes_before(b, a)),
        !comes_before(a, b) && !comes_before(b, a) ==> a == b,
        !comes_before(a, b) && !comes_before(b, c) ==> !comes_before(a, c),
    decreases a.len() + b.len() + c.len(),
{
    if a.len() > 0 && b.len() > 0 && c.len() > 0 {
        lemma_order(a.drop_first(), b.drop_first(), c.drop_first());
        assert(a =~= seq![a[0]] + a.drop_first());
        assert(b =~= seq![b[0]] + b.drop_first());
    } else if a.len() > 0 && b.len() > 0 {
        lemma_order(a.drop_first(), b.drop_first(), Seq::empty());
        assert(a =~= seq![a[0]] + a.drop_first());
        assert(b =~= seq![b[0]] + b.drop_first());
    } else if a.len() == 0 && b.len() == 0 {
        assert(a =~= b);
    }
}

/// The decimal digits of `n`, without leading zeros.
pub open spec fn decimal(n: nat) -> Seq<char>
    decreases n,
{
    if n < 10 {
        seq![(48 + n) as char]
    } else {
        decimal(n / 10).push((48 + n % 10) as char)
    }
}

/// `n` written in decimal.
pub fn decimal_of(n: u64) -> (out: String)
    ensures
        out@ == decimal(n as nat),
    decreases n,
{
    let digit: char = (48u8 + (n % 10) as u8) as char;
    let mut out: String = if n < 10 {
        String::new()
    } else {
        decimal_of(n / 10)
    };
    out.push(digit);
    out
}

/// Number of bytes of one character.
pub fn char_bytes(c: char) -> (n: usize)
    ensures
        n == byte_len(seq![c]),
        1 <= n <= 4,
{
    reveal_with_fuel(encode_utf8, 2);
    assert(seq![c].drop_first() =~= Seq::empty());
    assert(encode_utf8(seq![c]) =~= encode_scalar(c as u32));
    if c <= '\u{7f}' {
        1
    } else if c <= '\u{7ff}' {
        2
    } else if c <= '\u{ffff}' {
        3
    } else {
        4
    }
}

/// Whether `t` is the longest beginning of `s` that has at most `limit` bytes.
pub open spec fn is_bounded(s: Seq<char>, limit: nat, t: Seq<char>) -> bool {
    &&& t.is_prefix_of(s)
    &&& byte_len(t) <= limit
    &&& t.len() < s.len() ==> byte_len(s.take(t.len() as int + 1)) > limit
}

/// The longest beginning of `s` that has at most `limit` bytes.
pub fn bounded(s: &str, limit: usize) -> (out: String)
    ensures
        is_bounded(s@, limit as nat, out@),
{
    let mut out: String = String::new();
    let mut room: usize = limit;
    assert(s@.take(0) =~= Seq::empty());
    for c in it: s.chars()
        invariant
            it.seq() == s@,
            out@ == s@.take(it.index() as int),
            byte_len(out@) + room == limit,
    {
        let ghost i = it.index() as int;
        let n: usize = char_bytes(c);
        proof {
            lemma_byte_len_concat(out@, seq![c]);
            assert(s@.take(i + 1) =~= out@ + seq![c]);
        }
        if n > room {
            assert(out@ =~= s@.subrange(0, out@.len() as int));
            return out;
        }
        room -= n;
        out.push(c);
        assert(out@ =~= s@.take(i + 1));
    }
    assert(out@ =~= s@);
    assert(out@ =~= s@.subrange(0, out@.len() as int));
    out
}

/// There is one longest beginning: the bound determines what is kept.
pub proof fn law_one_longest_beginning(s: Seq<char>, limit: nat, t: Seq<char>, u: Seq<char>)
    requires
        is_bounded(s, limit, t),
        is_bounded(s, limit, u),
    ensures
        t == u,
{
    assert(t =~= s.take(t.len() as int));
    assert(u =~= s.take(u.len() as int));
    if t.len() < u.len() {
        lemma_byte_len_concat(s.take(t.len() as int + 1), u.skip(t.len() as int + 1));
        assert(u =~= s.take(t.len() as int + 1) + u.skip(t.len() as int + 1));
    } else if u.len() < t.len() {
        lemma_byte_len_concat(s.take(u.len() as int + 1), t.skip(u.len() as int + 1));
        assert(t =~= s.take(u.len() as int + 1) + t.skip(u.len() as int + 1));
    }
}

/// How `str` is written in its `Debug` form.
pub uninterp spec fn debug_of(s: Seq<char>) -> Seq<char>;

/// The `Debug` form of `str`: quoted, with escapes where a character is not
/// printable. Which characters are escaped is left to the name.
#[verifier::external_body]
pub(crate) fn debug_text(s: &str) -> (r: String)
    ensures
        r@ == debug_of(s@),
{
    format!("{s:?}")
}

} // verus!
