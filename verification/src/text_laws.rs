//! What holds of the operations on text, digits and times, told by the characters
//! that go in and come out.

use crate::clock::{closer_than_minutes, elapsed_millis, Moment};
use crate::digest;
use crate::digest::hex_text;
use crate::json;
use crate::text;
use crate::text::{
    bounded, char_bytes, chars_of, contains, contains_any, contains_control, decimal_of, is_before, is_one_of, len_bytes,
    same_chars, split, starts_with, starts_with_any, str_eq, string_of, strip_prefix,
    to_ascii_lower, trim,
    whitespace, AnyOf, CharClass, Whitespace,
};
use vstd::prelude::*;
use vstd::string::*;
use vstd::utf8::*;

verus! {

/// A text that has no more bytes than allowed is kept whole. Of a longer one the
/// longest beginning that fits is kept.
pub proof fn law_what_fits_is_kept(s: &str, limit: usize, out: String)
    requires
        call_ensures(bounded, (s, limit), out),
    ensures
        text::byte_len(s@) <= limit ==> out@ == s@,
        out@.len() <= s@.len(),
        out@ == s@.take(out@.len() as int),
        text::byte_len(out@) <= limit,
        out@.len() < s@.len() ==> text::byte_len(s@.take(out@.len() as int + 1)) > limit,
{
    assert(out@ =~= s@.take(out@.len() as int));
    lemma_fits(s@, limit as nat, out@);
}

/// A text that fits is the longest beginning of itself that does.
pub proof fn lemma_fits(s: Seq<char>, limit: nat, t: Seq<char>)
    requires
        text::is_bounded(s, limit, t),
    ensures
        text::byte_len(s) <= limit ==> t == s,
{
    assert(t =~= s.take(t.len() as int));
    if t.len() < s.len() {
        let n = t.len() as int + 1;
        text::lemma_byte_len_concat(s.take(n), s.skip(n));
        assert(s =~= s.take(n) + s.skip(n));
    } else {
        assert(t =~= s);
    }
}

/// The bytes of a text are those of its UTF-8 form.
pub proof fn law_texts_are_measured_in_bytes(s: &str, n: usize)
    requires
        call_ensures(len_bytes, (s,), n),
    ensures
        n == encode_utf8(s@).len(),
{
}

/// Which characters are white space.
pub proof fn law_white_space(c: char, r: bool)
    requires
        call_ensures(whitespace, (c,), r),
    ensures
        r <==> {
            let n = c as u32;
            9 <= n <= 13 || n == 32 || n == 133 || n == 160 || n == 5760 || 8192 <= n <= 8202 || n
                == 8232 || n == 8233 || n == 8239 || n == 8287 || n == 12288
        },
{
}

/// Whether the white space around `inner` is all that tells `whole` from it.
pub open spec fn is_trimmed(whole: Seq<char>, inner: Seq<char>, from: int) -> bool {
    &&& 0 <= from <= from + inner.len() <= whole.len()
    &&& inner == whole.subrange(from, from + inner.len())
    &&& forall|i: int| 0 <= i < from ==> text::is_whitespace(#[trigger] whole[i])
    &&& forall|i: int|
        from + inner.len() <= i < whole.len() ==> text::is_whitespace(#[trigger] whole[i])
    &&& inner.len() > 0 ==> !text::is_whitespace(inner[0]) && !text::is_whitespace(inner.last())
}

proof fn lemma_trim_start(s: Seq<char>) -> (from: int)
    ensures
        0 <= from <= s.len(),
        text::trim_start(s) == s.skip(from),
        forall|i: int| 0 <= i < from ==> text::is_whitespace(#[trigger] s[i]),
        from < s.len() ==> !text::is_whitespace(s[from]),
    decreases s.len(),
{
    if s.len() > 0 && text::is_whitespace(s[0]) {
        let tail = s.drop_first();
        let k = lemma_trim_start(tail);
        assert(tail.skip(k) =~= s.skip(k + 1));
        assert forall|i: int| 0 <= i < k + 1 implies text::is_whitespace(#[trigger] s[i]) by {
            if i > 0 {
                assert(tail[i - 1] == s[i]);
            }
        }
        k + 1
    } else {
        assert(s.skip(0) =~= s);
        0
    }
}

proof fn lemma_trim_end(s: Seq<char>) -> (to: int)
    ensures
        0 <= to <= s.len(),
        text::trim_end(s) == s.take(to),
        forall|i: int| to <= i < s.len() ==> text::is_whitespace(#[trigger] s[i]),
        to > 0 ==> !text::is_whitespace(s[to - 1]),
    decreases s.len(),
{
    if s.len() > 0 && text::is_whitespace(s.last()) {
        let init = s.drop_last();
        let k = lemma_trim_end(init);
        assert(init.take(k) =~= s.take(k));
        assert forall|i: int| k <= i < s.len() implies text::is_whitespace(#[trigger] s[i]) by {
            if i < init.len() {
                assert(init[i] == s[i]);
            }
        }
        k
    } else {
        assert(s.take(s.len() as int) =~= s);
        s.len() as int
    }
}

/// What is left of a text when white space is taken off both ends.
pub proof fn lemma_trimmed(s: Seq<char>) -> (from: int)
    ensures
        is_trimmed(s, text::trimmed(s), from),
{
    let from = lemma_trim_start(s);
    let mid = s.skip(from);
    let to = lemma_trim_end(mid);
    assert forall|i: int| 0 <= i < mid.len() implies #[trigger] mid[i] == s[from + i] by {}
    assert(text::trimmed(s) =~= s.subrange(from, from + to));
    assert forall|i: int| from + to <= i < s.len() implies text::is_whitespace(
        #[trigger] s[i],
    ) by {
        assert(mid[i - from] == s[i]);
    }
    from
}

/// To trim a text takes white space off both its ends, as much as there is, and
/// nothing else.
pub proof fn law_only_outer_white_space_is_trimmed(s: &[char], out: &[char])
    requires
        call_ensures(trim, (s,), out),
    ensures
        exists|from: int| is_trimmed(s@, out@, from),
{
    let from = lemma_trimmed(s@);
    assert(is_trimmed(s@, out@, from));
}

/// Lower case changes the letters from `A` to `Z` and no other character.
pub proof fn law_lower_case(s: &[char], out: Vec<char>)
    requires
        call_ensures(to_ascii_lower, (s,), out),
    ensures
        out@.len() == s@.len(),
        forall|i: int|
            0 <= i < s@.len() ==> {
                let n = s@[i] as u32;
                &&& 65 <= n <= 90 ==> (#[trigger] out@[i]) as u32 == n + 32
                &&& !(65 <= n <= 90) ==> out@[i] == s@[i]
            },
{
}

/// A text begins with another exactly if it is at least as long and agrees with it
/// in each of its characters; what follows is then all the rest.
pub proof fn law_beginnings(s: &[char], prefix: &str, r: bool, rest: Option<&[char]>)
    requires
        call_ensures(starts_with, (s, prefix), r),
        call_ensures(strip_prefix, (s, prefix), rest),
    ensures
        r <==> prefix@.len() <= s@.len() && forall|i: int|
            0 <= i < prefix@.len() ==> #[trigger] s@[i] == prefix@[i],
        rest is Some <==> r,
        rest matches Some(tail) ==> s@ == prefix@ + tail@,
{
    if r {
        assert forall|i: int| 0 <= i < prefix@.len() implies #[trigger] s@[i] == prefix@[i] by {
            assert(s@.subrange(0, prefix@.len() as int)[i] == s@[i]);
        }
    }
    if prefix@.len() <= s@.len() && forall|i: int|
        0 <= i < prefix@.len() ==> #[trigger] s@[i] == prefix@[i] {
        assert(prefix@ =~= s@.subrange(0, prefix@.len() as int));
    }
    if let Some(tail) = rest {
        assert(s@ =~= prefix@ + tail@);
    }
}

/// A word occurs in a text exactly if it stands somewhere in it.
pub proof fn law_occurrences(s: &[char], word: &str, r: bool)
    requires
        call_ensures(contains, (s, word), r),
    ensures
        r <==> exists|i: int|
            0 <= i <= i + word@.len() <= s@.len() && #[trigger] s@.subrange(i, i + word@.len())
                == word@,
{
    if r {
        let i = choose|i: int| 0 <= i <= s@.len() && word@.is_prefix_of(#[trigger] s@.skip(i));
        assert(s@.subrange(i, i + word@.len()) =~= s@.skip(i).subrange(0, word@.len() as int));
    }
    if exists|i: int|
        0 <= i <= i + word@.len() <= s@.len() && #[trigger] s@.subrange(i, i + word@.len())
            == word@ {
        let i = choose|i: int|
            0 <= i <= i + word@.len() <= s@.len() && #[trigger] s@.subrange(i, i + word@.len())
                == word@;
        assert(s@.skip(i).subrange(0, word@.len() as int) =~= s@.subrange(i, i + word@.len()));
        assert(word@.is_prefix_of(s@.skip(i)));
    }
}

/// One of several words is enough: to begin a text, to occur in it, or to be it.
pub proof fn law_one_of_several(s: &[char], words: &[&str], begins: bool, occurs: bool, is: bool)
    requires
        call_ensures(starts_with_any, (s, words), begins),
        call_ensures(contains_any, (s, words), occurs),
        call_ensures(is_one_of, (s, words), is),
    ensures
        begins <==> exists|k: int|
            0 <= k < words@.len() && (#[trigger] words@[k])@.is_prefix_of(s@),
        occurs <==> exists|k: int|
            0 <= k < words@.len() && text::has_substring(s@, (#[trigger] words@[k])@),
        is <==> exists|k: int| 0 <= k < words@.len() && (#[trigger] words@[k])@ == s@,
{
    let list = text::views(words@);
    assert forall|k: int| 0 <= k < words@.len() implies #[trigger] words@[k]@ == list[k] by {}
    if begins {
        let k = choose|k: int| 0 <= k < list.len() && (#[trigger] list[k]).is_prefix_of(s@);
        assert(words@[k]@.is_prefix_of(s@));
    } else if exists|k: int| 0 <= k < words@.len() && (#[trigger] words@[k])@.is_prefix_of(s@) {
        let k = choose|k: int| 0 <= k < words@.len() && (#[trigger] words@[k])@.is_prefix_of(s@);
        assert(list[k].is_prefix_of(s@));
    }
    if occurs {
        let k = choose|k: int| 0 <= k < list.len() && text::has_substring(s@, #[trigger] list[k]);
        assert(text::has_substring(s@, words@[k]@));
    } else if exists|k: int|
        0 <= k < words@.len() && text::has_substring(s@, (#[trigger] words@[k])@) {
        let k = choose|k: int|
            0 <= k < words@.len() && text::has_substring(s@, (#[trigger] words@[k])@);
        assert(text::has_substring(s@, list[k]));
    }
    if is {
        let k = choose|k: int| 0 <= k < list.len() && list[k] == s@;
        assert(words@[k]@ == s@);
    } else if exists|k: int| 0 <= k < words@.len() && (#[trigger] words@[k])@ == s@ {
        let k = choose|k: int| 0 <= k < words@.len() && (#[trigger] words@[k])@ == s@;
        assert(list[k] == s@);
    }
}

/// Texts are the same exactly if they have the same characters.
pub proof fn law_equal_texts(a: &str, b: &str, r: bool, s: &[char], q: bool)
    requires
        call_ensures(str_eq, (a, b), r),
        call_ensures(same_chars, (s, b), q),
    ensures
        r <==> a@.len() == b@.len() && forall|i: int|
            0 <= i < a@.len() ==> #[trigger] a@[i] == b@[i],
        q <==> s@.len() == b@.len() && forall|i: int|
            0 <= i < s@.len() ==> #[trigger] s@[i] == b@[i],
{
    if a@.len() == b@.len() && forall|i: int| 0 <= i < a@.len() ==> #[trigger] a@[i] == b@[i] {
        assert(a@ =~= b@);
    }
    if s@.len() == b@.len() && forall|i: int| 0 <= i < s@.len() ==> #[trigger] s@[i] == b@[i] {
        assert(s@ =~= b@);
    }
}

/// A control character is one up to U+001F, or one from U+007F to U+009F.
pub proof fn law_control_characters(s: &str, r: bool)
    requires
        call_ensures(contains_control, (s,), r),
    ensures
        r <==> exists|i: int|
            0 <= i < s@.len() && ((#[trigger] s@[i]) < ' ' || '\u{7f}' <= s@[i] <= '\u{9f}'),
{
    if r {
        let i = choose|i: int| 0 <= i < s@.len() && text::is_control(#[trigger] s@[i]);
        assert(s@[i] < ' ' || '\u{7f}' <= s@[i] <= '\u{9f}');
    }
}

/// One text comes before another exactly if it is a beginning of it, and shorter,
/// or has the smaller character where they first differ.
pub proof fn law_the_order_of_texts(a: &[char], b: &[char], r: bool)
    requires
        call_ensures(is_before, (a, b), r),
    ensures
        r <==> exists|i: int|
            0 <= i <= a@.len() && i < b@.len() && #[trigger] a@.take(i) == b@.take(i) && (i
                == a@.len() || a@[i] < b@[i]),
{
    lemma_comes_before(a@, b@);
}

proof fn lemma_comes_before(a: Seq<char>, b: Seq<char>)
    ensures
        text::comes_before(a, b) <==> exists|i: int|
            0 <= i <= a.len() && i < b.len() && #[trigger] a.take(i) == b.take(i) && (i == a.len()
                || a[i] < b[i]),
    decreases a.len(),
{
    if b.len() == 0 {
    } else if a.len() == 0 {
        assert(a.take(0) =~= b.take(0));
    } else if a[0] != b[0] {
        if a[0] < b[0] {
            assert(a.take(0) =~= b.take(0));
        }
        if exists|i: int|
            0 <= i <= a.len() && i < b.len() && #[trigger] a.take(i) == b.take(i) && (i == a.len()
                || a[i] < b[i]) {
            let i = choose|i: int|
                0 <= i <= a.len() && i < b.len() && #[trigger] a.take(i) == b.take(i) && (i
                    == a.len() || a[i] < b[i]);
            if i > 0 {
                assert(a.take(i)[0] == a[0] && b.take(i)[0] == b[0]);
            }
        }
    } else {
        let x = a.drop_first();
        let y = b.drop_first();
        lemma_comes_before(x, y);
        if text::comes_before(x, y) {
            let i = choose|i: int|
                0 <= i <= x.len() && i < y.len() && #[trigger] x.take(i) == y.take(i) && (i
                    == x.len() || x[i] < y[i]);
            assert(a.take(i + 1) =~= seq![a[0]] + x.take(i));
            assert(b.take(i + 1) =~= seq![b[0]] + y.take(i));
        }
        if exists|i: int|
            0 <= i <= a.len() && i < b.len() && #[trigger] a.take(i) == b.take(i) && (i == a.len()
                || a[i] < b[i]) {
            let i = choose|i: int|
                0 <= i <= a.len() && i < b.len() && #[trigger] a.take(i) == b.take(i) && (i
                    == a.len() || a[i] < b[i]);
            assert(i > 0);
            assert(x.take(i - 1) =~= a.take(i).drop_first());
            assert(y.take(i - 1) =~= b.take(i).drop_first());
            assert(x.take(i - 1) == y.take(i - 1));
        }
    }
}

/// The number that decimal digits stand for.
pub open spec fn value_of(digits: Seq<char>) -> int
    decreases digits.len(),
{
    if digits.len() == 0 {
        0
    } else {
        10 * value_of(digits.drop_last()) + (digits.last() as u32 - 48)
    }
}

/// A number is written with decimal digits that stand for it, and without a zero in
/// front of others.
pub proof fn law_decimal_digits(n: u64, out: String)
    requires
        call_ensures(decimal_of, (n,), out),
    ensures
        value_of(out@) == n,
        out@.len() > 0,
        forall|i: int| 0 <= i < out@.len() ==> 48 <= (#[trigger] out@[i]) as u32 <= 57,
        out@.len() > 1 ==> out@[0] != '0',
{
    lemma_decimal(n as nat);
}

proof fn lemma_decimal(n: nat)
    ensures
        value_of(text::decimal(n)) == n,
        text::decimal(n).len() > 0,
        forall|i: int|
            0 <= i < text::decimal(n).len() ==> 48 <= (#[trigger] text::decimal(n)[i]) as u32
                <= 57,
        n > 0 ==> text::decimal(n)[0] != '0',
        n == 0 ==> text::decimal(n).len() == 1,
    decreases n,
{
    let d = text::decimal(n);
    if n < 10 {
        assert(d.drop_last() =~= Seq::empty());
        assert(value_of(d.drop_last()) == 0);
    } else {
        lemma_decimal(n / 10);
        assert(d.drop_last() =~= text::decimal(n / 10));
    }
}

/// Bytes are written as two hexadecimal digits each, in their order: the higher
/// half first.
pub proof fn law_hexadecimal_digits(bytes: &[u8], out: String, i: int)
    requires
        call_ensures(hex_text, (bytes,), out),
        0 <= i < bytes@.len(),
    ensures
        out@.len() == 2 * bytes@.len(),
        out@[2 * i] == "0123456789abcdef"@[(bytes@[i] / 16) as int],
        out@[2 * i + 1] == "0123456789abcdef"@[(bytes@[i] % 16) as int],
{
    lemma_hex(bytes@, i);
}

proof fn lemma_hex_digit(n: nat)
    requires
        n < 16,
    ensures
        json::hex_digit(n) == "0123456789abcdef"@[n as int],
{
    reveal_strlit("0123456789abcdef");
}

proof fn lemma_hex(bytes: Seq<u8>, i: int)
    ensures
        digest::hex(bytes).len() == 2 * bytes.len(),
        0 <= i < bytes.len() ==> digest::hex(bytes)[2 * i]
            == "0123456789abcdef"@[(bytes[i] / 16) as int] && digest::hex(bytes)[2 * i + 1]
            == "0123456789abcdef"@[(bytes[i] % 16) as int],
    decreases bytes.len(),
{
    if bytes.len() > 0 {
        lemma_hex(bytes.drop_last(), i);
        lemma_hex_digit((bytes.last() / 16) as nat);
        lemma_hex_digit((bytes.last() % 16) as nat);
    }
}

/// What pieces are cut from: the pieces with one separator between each two.
pub open spec fn rejoined(pieces: Seq<Seq<char>>, seps: Seq<char>) -> Seq<char>
    decreases pieces.len(),
{
    if pieces.len() <= 1 || seps.len() == 0 {
        pieces[0]
    } else {
        rejoined(pieces.drop_last(), seps.drop_last()).push(seps.last()) + pieces.last()
    }
}

/// The separators of a text, in order.
pub open spec fn separators(s: Seq<char>, sep: spec_fn(char) -> bool) -> Seq<char>
    decreases s.len(),
{
    if s.len() == 0 {
        Seq::empty()
    } else if sep(s.last()) {
        separators(s.drop_last(), sep).push(s.last())
    } else {
        separators(s.drop_last(), sep)
    }
}

/// A text is cut at each separator and nowhere else: no piece holds one, and the
/// pieces with the separators between them are the text again.
pub proof fn law_pieces_make_up_the_text<C: CharClass>(s: &[char], sep: &C, out: Vec<Vec<char>>)
    requires
        call_ensures(split::<C>, (s, sep), out),
    ensures
        ({
            let pieces = out@.map_values(|v: Vec<char>| v@);
            let seps = separators(s@, |c: char| sep.has(c));
            &&& pieces.len() == seps.len() + 1
            &&& rejoined(pieces, seps) == s@
            &&& forall|k: int, i: int|
                0 <= k < pieces.len() && 0 <= i < pieces[k].len() ==> !sep.has(
                    #[trigger] pieces[k][i],
                )
        }),
{
    let f = |c: char| sep.has(c);
    lemma_pieces(s@, f);
    let pieces = out@.map_values(|v: Vec<char>| v@);
    assert(pieces =~= text::piece_views(out@));
    assert forall|k: int, i: int| 0 <= k < pieces.len() && 0 <= i < pieces[k].len() implies !sep.has(
        #[trigger] pieces[k][i],
    ) by {
        assert(!f(pieces[k][i]));
    }
}

proof fn lemma_rejoin_more(pieces: Seq<Seq<char>>, seps: Seq<char>, c: char)
    requires
        pieces.len() == seps.len() + 1,
    ensures
        rejoined(pieces.drop_last().push(pieces.last().push(c)), seps) == rejoined(
            pieces,
            seps,
        ).push(c),
{
    let more = pieces.drop_last().push(pieces.last().push(c));
    if pieces.len() == 1 {
        assert(more[0] == pieces[0].push(c));
    } else {
        assert(more.drop_last() =~= pieces.drop_last());
        assert(rejoined(more, seps) =~= rejoined(pieces, seps).push(c));
    }
}

proof fn lemma_pieces(s: Seq<char>, sep: spec_fn(char) -> bool)
    ensures
        text::pieces(s, sep).len() == separators(s, sep).len() + 1,
        rejoined(text::pieces(s, sep), separators(s, sep)) == s,
        forall|k: int, i: int|
            0 <= k < text::pieces(s, sep).len() && 0 <= i < text::pieces(s, sep)[k].len() ==> !sep(
                #[trigger] text::pieces(s, sep)[k][i],
            ),
    decreases s.len(),
{
    let after = text::pieces(s, sep);
    if s.len() == 0 {
        assert(after[0] =~= s);
    } else {
        let init = s.drop_last();
        lemma_pieces(init, sep);
        let before = text::pieces(init, sep);
        let seps = separators(init, sep);
        if sep(s.last()) {
            assert(after.drop_last() =~= before);
            assert(separators(s, sep).drop_last() =~= seps);
            assert(rejoined(after, separators(s, sep)) =~= s);
        } else {
            lemma_rejoin_more(before, seps, s.last());
            assert(rejoined(after, seps) =~= s);
        }
        assert forall|k: int, i: int|
            0 <= k < after.len() && 0 <= i < after[k].len() implies !sep(
            #[trigger] after[k][i],
        ) by {
            if k < before.len() - 1 {
                assert(after[k] == before[k]);
                assert(!sep(before[k][i]));
            } else if sep(s.last()) {
                if k < before.len() {
                    assert(after[k] == before[k]);
                    assert(!sep(before[k][i]));
                }
            } else {
                assert(after[k] == before.last().push(s.last()));
                if i < before.last().len() {
                    assert(!sep(before[before.len() - 1][i]));
                }
            }
        }
    }
}

/// What text is cut at: white space, or one of the characters that are listed.
pub proof fn law_what_text_is_cut_at(list: &[char], c: char, a: bool, b: bool)
    requires
        call_ensures(AnyOf::test, (&AnyOf(list), c), a),
        call_ensures(Whitespace::test, (&Whitespace, c), b),
    ensures
        AnyOf(list).has(c) <==> exists|i: int| 0 <= i < list@.len() && list@[i] == c,
        a <==> exists|i: int| 0 <= i < list@.len() && list@[i] == c,
        Whitespace.has(c) <==> text::is_whitespace(c),
        b <==> text::is_whitespace(c),
{
}

/// The time between two moments, in whole milliseconds: what is left over is less
/// than one, and to go back takes as long as to go forth.
pub proof fn law_elapsed_time(start: Moment, end: Moment, r: i64, back: i64)
    requires
        start.in_range(),
        end.in_range(),
        call_ensures(elapsed_millis, (start, end), r),
        call_ensures(elapsed_millis, (end, start), back),
    ensures
        ({
            let d = (end.secs - start.secs) * 1_000_000_000 + (end.nanos - start.nanos);
            &&& back == -r
            &&& d >= 0 ==> 0 <= d - r * 1_000_000 < 1_000_000
            &&& d <= 0 ==> 0 <= r * 1_000_000 - d < 1_000_000
        }),
{
}

/// Two moments are closer than some minutes exactly if the later is not that much
/// later; one that comes first is, whatever the distance.
pub proof fn law_close_moments(start: Moment, end: Moment, n: u32, r: bool)
    requires
        call_ensures(closer_than_minutes, (start, end, n), r),
        n > 0,
    ensures
        r <==> (end.secs - start.secs) * 1_000_000_000 + (end.nanos - start.nanos) < n
            * 60_000_000_000,
{
    let d = (end.secs - start.secs) * 1_000_000_000 + (end.nanos - start.nanos);
    if d >= 0 {
        assert((d / 60_000_000_000 < n) == (d < n * 60_000_000_000)) by (nonlinear_arith)
            requires
                d >= 0,
        ;
    }
}

/// A moment can be held as a time in UTC exactly if it lies in the years that a
/// calendar covers; only the last second of a minute can be longer than a second.
pub proof fn law_calendar_times(m: Moment)
    ensures
        m.is_calendar_time() <==> -8_334_601_228_800 <= m.secs <= 8_210_266_876_799 && (m.nanos
            <= 999_999_999 || (m.nanos <= 1_999_999_999 && m.secs % 60 == 59)),
        m.in_range() <==> m.is_calendar_time() && m.nanos <= 999_999_999,
{
}

/// Characters are taken out of a text and put into one unchanged, and each has the
/// bytes of its own UTF-8 form.
pub proof fn law_characters_are_kept(
    s: &str,
    list: Vec<char>,
    chars: &[char],
    back: String,
    c: char,
    n: usize,
)
    requires
        call_ensures(chars_of, (s,), list),
        call_ensures(string_of, (chars,), back),
        call_ensures(char_bytes, (c,), n),
    ensures
        list@ == s@,
        back@ == chars@,
        n == encode_utf8(seq![c]).len(),
        1 <= n <= 4,
{
}

} // verus!
