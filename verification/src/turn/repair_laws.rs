//! What holds of answers that only announce work, told by their words.

use crate::json;
use crate::text;
use crate::turn::completion_repair;
use crate::turn::completion_repair::{
    append_instruction, classify_sentence, is_initial_progress_only, is_progress_preamble,
    requests_prose, shows_tool_round, starts_with_action, states_request, SentenceKind, INSTRUCTION,
};
use crate::turn::message;
use crate::turn::message::ChatMessage;
use vstd::prelude::*;
use vstd::string::*;

verus! {

/// The instruction ends up in one system message: behind the first that there is,
/// or in one of its own in front of all others. No other message changes.
pub proof fn law_the_instruction_is_added_once(m: &mut Vec<ChatMessage>)
    requires
        call_ensures(append_instruction, (m,), ()),
    ensures
        forall|i: int|
            #![trigger old(m)@[i]]
            0 <= i < old(m)@.len() && old(m)@[i].role@ == "system"@ && (forall|j: int|
                0 <= j < i ==> (#[trigger] old(m)@[j]).role@ != "system"@) ==> {
                &&& final(m)@.len() == old(m)@.len()
                &&& final(m)@[i].role@ == "system"@
                &&& final(m)@[i].content@ == old(m)@[i].content@ + "\n\n"@ + INSTRUCTION@
                &&& forall|j: int|
                    0 <= j < old(m)@.len() && j != i ==> (#[trigger] final(m)@[j])@ == old(m)@[j]@
            },
        (forall|i: int| 0 <= i < old(m)@.len() ==> (#[trigger] old(m)@[i]).role@ != "system"@)
            ==> {
            &&& final(m)@.len() == old(m)@.len() + 1
            &&& final(m)@[0].role@ == "system"@
            &&& final(m)@[0].content@ == INSTRUCTION@
            &&& forall|j: int|
                0 <= j < old(m)@.len() ==> (#[trigger] final(m)@[j + 1])@ == old(m)@[j]@
        },
{
    let a = message::conversation(old(m)@);
    let b = message::conversation(final(m)@);
    assert(a.len() == old(m)@.len());
    assert(b.len() == final(m)@.len());
    assert forall|j: int| 0 <= j < old(m)@.len() implies (#[trigger] old(m)@[j])@ == a[j] by {}
    assert forall|j: int| 0 <= j < final(m)@.len() implies (#[trigger] final(m)@[j])@
        == b[j] by {}
    lemma_first_system(a);
    assert forall|i: int|
        #![trigger old(m)@[i]]
        0 <= i < old(m)@.len() && old(m)@[i].role@ == "system"@ && (forall|j: int|
            0 <= j < i ==> (#[trigger] old(m)@[j]).role@ != "system"@) implies ({
        &&& final(m)@.len() == old(m)@.len()
        &&& final(m)@[i].role@ == "system"@
        &&& final(m)@[i].content@ == old(m)@[i].content@ + "\n\n"@ + INSTRUCTION@
        &&& forall|j: int|
            0 <= j < old(m)@.len() && j != i ==> (#[trigger] final(m)@[j])@ == old(m)@[j]@
    }) by {
        assert(old(m)@[i]@ == a[i]);
        let k = completion_repair::first_system(a)->Some_0;
        assert(old(m)@[k]@ == a[k]);
        assert(k == i);
        assert(final(m)@[i]@ == b[i]);
        assert forall|j: int| 0 <= j < old(m)@.len() && j != i implies (#[trigger] final(m)@[j])@
            == old(m)@[j]@ by {
            assert(b[j] == a[j]);
        }
    }
    if forall|i: int| 0 <= i < old(m)@.len() ==> (#[trigger] old(m)@[i]).role@ != "system"@ {
        if completion_repair::first_system(a) is Some {
            let k = completion_repair::first_system(a)->Some_0;
            assert(old(m)@[k]@ == a[k]);
        }
        assert(final(m)@[0]@ == b[0]);
        assert forall|j: int| 0 <= j < old(m)@.len() implies (#[trigger] final(m)@[j + 1])@
            == old(m)@[j]@ by {
            assert(b[j + 1] == a[j]);
        }
    }
}

proof fn lemma_first_system(messages: Seq<message::MessageView>)
    ensures
        match completion_repair::first_system(messages) {
            Some(i) => 0 <= i < messages.len() && messages[i].role == "system"@ && forall|j: int|
                0 <= j < i ==> (#[trigger] messages[j]).role != "system"@,
            None => forall|j: int|
                0 <= j < messages.len() ==> (#[trigger] messages[j]).role != "system"@,
        },
    decreases messages.len(),
{
    if messages.len() > 0 {
        let init = messages.drop_last();
        lemma_first_system(init);
        assert forall|j: int| 0 <= j < init.len() implies #[trigger] messages[j] == init[j] by {}
    }
}

/// A message states a request exactly if it is the user's and neither a report on
/// tools nor the runtime's own mark.
pub proof fn law_what_states_a_request(m: &ChatMessage, checkpoint: &str, r: bool)
    requires
        call_ensures(states_request, (m, checkpoint), r),
    ensures
        r <==> m.role@ == "user"@ && !"[Tool results]"@.is_prefix_of(m.content@)
            && !"[Tool call parse error]"@.is_prefix_of(m.content@) && m.content@ != checkpoint@,
{
}

/// A message shows tool work exactly if a tool sent it, it reports on tools, or the
/// assistant asks in it for at least one call.
pub proof fn law_what_shows_tool_work(m: &ChatMessage, calls: &json::JsonField, r: bool)
    requires
        call_ensures(shows_tool_round, (m, calls), r),
    ensures
        r <==> m.role@ == "tool"@ || "[Tool results]"@.is_prefix_of(m.content@) || (m.role@
            == "assistant"@ && (*calls matches json::JsonField::Items(n) && n >= 1)),
{
}

/// Whether a text begins with a word and a space.
pub open spec fn begins_with(s: Seq<char>, word: Seq<char>) -> bool {
    (word + " "@).is_prefix_of(s)
}

/// Whether a text begins with one of the verbs for work, under way or to come.
pub open spec fn begins_with_work(s: Seq<char>, progressive: bool) -> bool {
    if progressive {
        ||| begins_with(s, "checking"@)
        ||| begins_with(s, "reviewing"@)
        ||| begins_with(s, "retrieving"@)
        ||| begins_with(s, "fetching"@)
        ||| begins_with(s, "inspecting"@)
        ||| begins_with(s, "searching"@)
        ||| begins_with(s, "reading"@)
        ||| begins_with(s, "verifying"@)
        ||| begins_with(s, "testing"@)
        ||| begins_with(s, "investigating"@)
    } else {
        ||| begins_with(s, "check"@)
        ||| begins_with(s, "review"@)
        ||| begins_with(s, "retrieve"@)
        ||| begins_with(s, "fetch"@)
        ||| begins_with(s, "inspect"@)
        ||| begins_with(s, "search"@)
        ||| begins_with(s, "read"@)
        ||| begins_with(s, "verify"@)
        ||| begins_with(s, "test"@)
        ||| begins_with(s, "investigate"@)
    }
}

/// Whether a text begins with what one looks at.
pub open spec fn begins_with_object(s: Seq<char>) -> bool {
    ||| begins_with(s, "up"@)
    ||| begins_with(s, "into"@)
    ||| begins_with(s, "at"@)
    ||| begins_with(s, "through"@)
    ||| begins_with(s, "for"@)
}

/// Whether a text begins with a review that is under way.
pub open spec fn begins_with_review(s: Seq<char>) -> bool {
    ||| begins_with(s, "doing the review"@)
    ||| begins_with(s, "doing the actual review"@)
    ||| begins_with(s, "doing the check"@)
    ||| begins_with(s, "doing the actual check"@)
}

/// Whether a text has a sign of a result or of an obstacle.
pub open spec fn has_result(s: Seq<char>) -> bool {
    ||| text::has_substring(s, " but "@)
    ||| text::has_substring(s, " because "@)
    ||| text::has_substring(s, " found "@)
    ||| text::has_substring(s, " confirmed "@)
    ||| text::has_substring(s, " completed "@)
    ||| text::has_substring(s, " finished "@)
    ||| text::has_substring(s, " cannot "@)
    ||| text::has_substring(s, " can't "@)
    ||| text::has_substring(s, " need you "@)
    ||| text::has_substring(s, " already "@)
}

/// Whether a text announces work.
pub open spec fn announces(s: Seq<char>, progressive: bool) -> bool {
    let look = if progressive {
        "looking "@
    } else {
        "look "@
    };
    &&& begins_with_work(s, progressive) || (progressive && begins_with_review(s)) || (
    look.is_prefix_of(s) && begins_with_object(s.skip(look.len() as int)))
    &&& !"reading this as "@.is_prefix_of(s)
    &&& !"read this as "@.is_prefix_of(s)
    &&& !has_result(s)
}

proof fn lemma_begins_with(s: Seq<char>, word: Seq<char>)
    ensures
        begins_with(s, word) <==> word.is_prefix_of(s) && " "@.is_prefix_of(
            s.skip(word.len() as int),
        ),
{
    reveal_strlit(" ");
    let n = word.len() as int;
    if begins_with(s, word) {
        assert(s.subrange(0, n) =~= (word + " "@).subrange(0, n));
        assert((word + " "@).subrange(0, n) =~= word);
        assert(s.skip(n).subrange(0, 1) =~= s.subrange(0, n + 1).skip(n));
        assert((word + " "@).skip(n) =~= " "@);
    }
    if word.is_prefix_of(s) && " "@.is_prefix_of(s.skip(n)) {
        assert(s.subrange(0, n + 1) =~= s.subrange(0, n) + s.skip(n).subrange(0, 1));
    }
}

proof fn lemma_work(s: Seq<char>, progressive: bool)
    ensures
        begins_with_work(s, progressive) <==> completion_repair::begins_with_verb(
            s,
            completion_repair::action_verbs(progressive),
        ),
{
    let verbs = completion_repair::action_verbs(progressive);
    assert(verbs.len() == 10);
    assert forall|i: int| 0 <= i < 10 implies (begins_with(s, #[trigger] verbs[i]) <==> verbs[
        i
    ].is_prefix_of(s) && " "@.is_prefix_of(s.skip(verbs[i].len() as int))) by {
        lemma_begins_with(s, verbs[i]);
    }
    assert(begins_with_work(s, progressive) <==> (begins_with(s, verbs[0]) || begins_with(
        s,
        verbs[1],
    ) || begins_with(s, verbs[2]) || begins_with(s, verbs[3]) || begins_with(s, verbs[4])
        || begins_with(s, verbs[5]) || begins_with(s, verbs[6]) || begins_with(s, verbs[7])
        || begins_with(s, verbs[8]) || begins_with(s, verbs[9])));
}

proof fn lemma_objects(s: Seq<char>)
    ensures
        begins_with_object(s) <==> text::has_prefix_in(s, completion_repair::look_objects()),
        begins_with_review(s) <==> text::has_prefix_in(s, completion_repair::review_phrases()),
{
    let objects = completion_repair::look_objects();
    reveal_strlit(" ");
    reveal_strlit("up");
    reveal_strlit("up ");
    reveal_strlit("into");
    reveal_strlit("into ");
    reveal_strlit("at");
    reveal_strlit("at ");
    reveal_strlit("through");
    reveal_strlit("through ");
    reveal_strlit("for");
    reveal_strlit("for ");
    assert("up"@ + " "@ =~= objects[0]);
    assert("into"@ + " "@ =~= objects[1]);
    assert("at"@ + " "@ =~= objects[2]);
    assert("through"@ + " "@ =~= objects[3]);
    assert("for"@ + " "@ =~= objects[4]);
    assert(objects.len() == 5);
    lemma_reviews(s);
}

proof fn lemma_reviews(s: Seq<char>)
    ensures
        begins_with_review(s) <==> text::has_prefix_in(s, completion_repair::review_phrases()),
{
    let reviews = completion_repair::review_phrases();
    reveal_strlit(" ");
    reveal_strlit("doing the review");
    reveal_strlit("doing the review ");
    reveal_strlit("doing the actual review");
    reveal_strlit("doing the actual review ");
    reveal_strlit("doing the check");
    reveal_strlit("doing the check ");
    reveal_strlit("doing the actual check");
    reveal_strlit("doing the actual check ");
    assert("doing the review"@ + " "@ =~= reviews[0]);
    assert("doing the actual review"@ + " "@ =~= reviews[1]);
    assert("doing the check"@ + " "@ =~= reviews[2]);
    assert("doing the actual check"@ + " "@ =~= reviews[3]);
    assert(reviews.len() == 4);
}

proof fn lemma_results(s: Seq<char>)
    ensures
        has_result(s) <==> text::has_substring_in(s, completion_repair::result_signals()),
{
    let signals = completion_repair::result_signals();
    assert(signals.len() == 10);
    assert(has_result(s) <==> (text::has_substring(s, signals[0]) || text::has_substring(
        s,
        signals[1],
    ) || text::has_substring(s, signals[2]) || text::has_substring(s, signals[3])
        || text::has_substring(s, signals[4]) || text::has_substring(s, signals[5])
        || text::has_substring(s, signals[6]) || text::has_substring(s, signals[7])
        || text::has_substring(s, signals[8]) || text::has_substring(s, signals[9])));
}

/// What announces work, by its words alone.
pub proof fn lemma_announces(s: Seq<char>, progressive: bool)
    ensures
        announces(s, progressive) <==> completion_repair::announces_action(s, progressive),
{
    lemma_work(s, progressive);
    lemma_objects(s);
    lemma_objects(s.skip("looking "@.len() as int));
    lemma_objects(s.skip("look "@.len() as int));
    lemma_results(s);
}

/// A text announces work exactly if it begins with a verb for work, a look at
/// something, or a review under way, and has no sign of a result.
pub proof fn law_what_announces_work(s: &[char], progressive: bool, r: bool)
    requires
        call_ensures(starts_with_action, (s, progressive), r),
    ensures
        r <==> announces(s@, progressive),
{
    lemma_announces(s@, progressive);
}

/// What a speaker says of work under way.
pub open spec fn says_under_way(s: Seq<char>) -> bool {
    ||| "i'm "@.is_prefix_of(s) && announces(s.skip(4), true)
    ||| "i am "@.is_prefix_of(s) && announces(s.skip(5), true)
}

/// What a speaker says of work to come.
pub open spec fn says_to_come(s: Seq<char>) -> bool {
    ||| "i'll "@.is_prefix_of(s) && announces(s.skip(5), false)
    ||| "i will "@.is_prefix_of(s) && announces(s.skip(7), false)
}

/// What a speaker says of a later report.
pub open spec fn promises_report(s: Seq<char>) -> bool {
    ||| begins_with(s, "give you"@)
    ||| begins_with(s, "let you know"@)
    ||| begins_with(s, "report back"@)
    ||| begins_with(s, "get back to you"@)
}

/// What a speaker says without saying anything.
pub open spec fn only_greets(s: Seq<char>) -> bool {
    ||| s == "i'm here"@
    ||| s == "i am here"@
    ||| s == "i dropped the follow-through"@
}

proof fn lemma_reports(s: Seq<char>)
    ensures
        promises_report(s) <==> text::has_prefix_in(s, completion_repair::followup_phrases()),
        only_greets(s) <==> completion_repair::acknowledgments().contains(s),
{
    let phrases = completion_repair::followup_phrases();
    reveal_strlit(" ");
    reveal_strlit("give you");
    reveal_strlit("give you ");
    reveal_strlit("let you know");
    reveal_strlit("let you know ");
    reveal_strlit("report back");
    reveal_strlit("report back ");
    reveal_strlit("get back to you");
    reveal_strlit("get back to you ");
    assert("give you"@ + " "@ =~= phrases[0]);
    assert("let you know"@ + " "@ =~= phrases[1]);
    assert("report back"@ + " "@ =~= phrases[2]);
    assert("get back to you"@ + " "@ =~= phrases[3]);
    assert(phrases.len() == 4);
    let greetings = completion_repair::acknowledgments();
    assert(greetings.len() == 3);
    assert(greetings[0] == "i'm here"@ && greetings[1] == "i am here"@ && greetings[2]
        == "i dropped the follow-through"@);
}

proof fn lemma_speaker(s: Seq<char>)
    ensures
        says_under_way(s) || says_to_come(s) <==> completion_repair::is_action_sentence(s),
{
    reveal_strlit("i'm ");
    reveal_strlit("i am ");
    reveal_strlit("i'll ");
    reveal_strlit("i will ");
    lemma_announces(s.skip(4), true);
    lemma_announces(s.skip(5), true);
    lemma_announces(s.skip(5), false);
    lemma_announces(s.skip(7), false);
    if "i'm "@.is_prefix_of(s) {
        assert(s.subrange(0, 4)[1] == s[1]);
        assert("i'm "@[1] == '\'');
        if "i am "@.is_prefix_of(s) {
            assert(s.subrange(0, 5)[1] == s[1]);
            assert("i am "@[1] == ' ');
        }
    }
    if "i'll "@.is_prefix_of(s) {
        assert(s.subrange(0, 5)[1] == s[1]);
        assert("i'll "@[1] == '\'');
        if "i will "@.is_prefix_of(s) {
            assert(s.subrange(0, 7)[1] == s[1]);
            assert("i will "@[1] == ' ');
        }
    }
}

/// A sentence announces work exactly if, after an opening `first`, its speaker says
/// so of work under way or to come. It is filler exactly if it does not but promises
/// a report or only greets; anything else has substance.
pub proof fn law_how_sentences_are_told_apart(sentence: &[char], r: SentenceKind)
    requires
        call_ensures(classify_sentence, (sentence,), r),
    ensures
        ({
            let s = if "first, "@.is_prefix_of(sentence@) {
                sentence@.skip(7)
            } else if "first "@.is_prefix_of(sentence@) {
                sentence@.skip(6)
            } else {
                sentence@
            };
            let action = says_under_way(s) || says_to_come(s);
            let report = ("i'll "@.is_prefix_of(s) && promises_report(s.skip(5))) || (
            "i will "@.is_prefix_of(s) && promises_report(s.skip(7)));
            &&& r is Action <==> action
            &&& r is Filler <==> !action && (report || only_greets(s))
            &&& r is Substantive <==> !action && !report && !only_greets(s)
        }),
{
    reveal_strlit("first, ");
    reveal_strlit("first ");
    reveal_strlit("i'll ");
    reveal_strlit("i will ");
    let s = completion_repair::without_first(sentence@);
    lemma_speaker(s);
    lemma_reports(s);
    lemma_reports(s.skip(5));
    lemma_reports(s.skip(7));
    if "i'll "@.is_prefix_of(s) && "i will "@.is_prefix_of(s) {
        assert(s.subrange(0, 5)[1] == s[1]);
        assert("i'll "@[1] == '\'');
        assert(s.subrange(0, 7)[1] == s[1]);
        assert("i will "@[1] == ' ');
    }
}

/// The number of places at which a word begins.
pub open spec fn word_starts(s: Seq<char>) -> nat
    decreases s.len(),
{
    if s.len() == 0 {
        0
    } else {
        let before = word_starts(s.drop_last());
        if !text::is_whitespace(s.last()) && (s.len() == 1 || text::is_whitespace(
            s[s.len() - 2],
        )) {
            before + 1
        } else {
            before
        }
    }
}

proof fn lemma_words(s: Seq<char>)
    ensures
        completion_repair::word_count(s) == word_starts(s),
        ({
            let pieces = text::pieces(s, |c: char| text::is_whitespace(c));
            &&& pieces.len() > 0
            &&& pieces.last().len() == 0 <==> s.len() == 0 || text::is_whitespace(s.last())
        }),
    decreases s.len(),
{
    let sep = |c: char| text::is_whitespace(c);
    let pieces = text::pieces(s, sep);
    if s.len() == 0 {
        assert(pieces.drop_last() =~= Seq::empty());
        assert(completion_repair::nonempty_count(pieces.drop_last()) == 0);
    } else {
        let init = s.drop_last();
        lemma_words(init);
        let before = text::pieces(init, sep);
        if sep(s.last()) {
            assert(pieces.drop_last() =~= before);
        } else {
            assert(pieces.drop_last() =~= before.drop_last());
        }
    }
}

/// Whether a character has no place in an announcement.
pub open spec fn has_substance(c: char) -> bool {
    ||| c == '\n' || c == '?' || c == ':' || c == '`' || c == '"'
    ||| c == '\u{201c}' || c == '\u{201d}'
    ||| c == '[' || c == ']' || c == '/' || c == '='
    ||| '0' <= c <= '9'
}

/// An answer only announces work exactly if it is not empty, has at most 600 bytes
/// and 90 words, holds no character of substance, and each of its sentences
/// announces work or is filler, at least one the former.
pub proof fn law_what_only_announces_work(lowered: &str, r: bool)
    requires
        call_ensures(is_progress_preamble, (lowered,), r),
    ensures
        ({
            let list = text::pieces(
                lowered@,
                |c: char| c == '.' || c == '!' || c == ';',
            ).map_values(|p: Seq<char>| text::trimmed(p));
            r <==> {
                &&& lowered@.len() > 0
                &&& text::byte_len(lowered@) <= 600
                &&& word_starts(lowered@) <= 90
                &&& forall|i: int|
                    0 <= i < lowered@.len() ==> !has_substance(#[trigger] lowered@[i])
                &&& forall|i: int|
                    0 <= i < list.len() && (#[trigger] list[i]).len() > 0
                        ==> completion_repair::is_preamble_sentence(
                        completion_repair::without_first(list[i]),
                    )
                &&& exists|i: int|
                    0 <= i < list.len() && (#[trigger] list[i]).len() > 0
                        && completion_repair::is_action_sentence(
                        completion_repair::without_first(list[i]),
                    )
            }
        }),
{
    lemma_words(lowered@);
    let list = completion_repair::sentences(lowered@);
    assert forall|i: int| 0 <= i < lowered@.len() implies (has_substance(#[trigger] lowered@[i])
        <==> completion_repair::is_substantive_char(lowered@[i])) by {}
    if r {
        assert forall|i: int| 0 <= i < lowered@.len() implies !has_substance(
            #[trigger] lowered@[i],
        ) by {
            assert(!completion_repair::is_substantive_char(lowered@[i]));
        }
    }
}

/// Whether a word asks for wording, a plan or a report.
pub open spec fn is_prose_word(w: Seq<char>) -> bool {
    ||| w == "quote"@ || w == "quoted"@ || w == "repeat"@ || w == "rewrite"@ || w == "rephrase"@
    ||| w == "paraphrase"@ || w == "translate"@ || w == "translation"@ || w == "sentence"@
    ||| w == "wording"@ || w == "grammar"@ || w == "example"@ || w == "plan"@ || w == "planning"@
    ||| w == "strategy"@ || w == "steps"@ || w == "status"@
}

/// Whether a request has a phrase that asks for wording, a plan or a report.
pub open spec fn has_prose_phrase(s: Seq<char>) -> bool {
    ||| text::has_substring(s, "what are you doing"@)
    ||| text::has_substring(s, "what will you"@)
    ||| text::has_substring(s, "how would you"@)
    ||| text::has_substring(s, "how do i"@)
    ||| text::has_substring(s, "how to "@)
    ||| text::has_substring(s, "respond with "@)
    ||| text::has_substring(s, "reply with "@)
    ||| text::has_substring(s, "say exactly "@)
    ||| text::has_substring(s, "write an update"@)
    ||| text::has_substring(s, "write a message"@)
    ||| text::has_substring(s, "draft a "@)
}

/// A request asks for prose exactly if one of its words or phrases does.
pub proof fn law_what_asks_for_prose(words: &[Vec<char>], request: &[char], r: bool)
    requires
        call_ensures(requests_prose, (words, request), r),
    ensures
        r <==> has_prose_phrase(request@) || exists|i: int|
            0 <= i < words@.len() && is_prose_word((#[trigger] words@[i])@),
{
    lemma_prose(request@);
    let list = text::piece_views(words@);
    assert(list.len() == words@.len());
    assert forall|i: int| 0 <= i < words@.len() implies (#[trigger] words@[i])@ == list[i] by {}
    if exists|i: int|
        0 <= i < list.len() && completion_repair::prose_words().contains(#[trigger] list[i]) {
        let i = choose|i: int|
            0 <= i < list.len() && completion_repair::prose_words().contains(#[trigger] list[i]);
        lemma_prose_word(list[i]);
        assert(is_prose_word(words@[i]@));
    }
    if exists|i: int| 0 <= i < words@.len() && is_prose_word((#[trigger] words@[i])@) {
        let i = choose|i: int| 0 <= i < words@.len() && is_prose_word((#[trigger] words@[i])@);
        lemma_prose_word(list[i]);
        assert(completion_repair::prose_words().contains(list[i]));
    }
}

proof fn lemma_prose_word(w: Seq<char>)
    ensures
        is_prose_word(w) <==> completion_repair::prose_words().contains(w),
{
    let l = completion_repair::prose_words();
    assert(l.len() == 17);
    assert(is_prose_word(w) <==> (w == l[0] || w == l[1] || w == l[2] || w == l[3] || w == l[4]
        || w == l[5] || w == l[6] || w == l[7] || w == l[8] || w == l[9] || w == l[10] || w == l[11]
        || w == l[12] || w == l[13] || w == l[14] || w == l[15] || w == l[16]));
}

proof fn lemma_prose(s: Seq<char>)
    ensures
        has_prose_phrase(s) <==> text::has_substring_in(s, completion_repair::prose_phrases()),
{
    let l = completion_repair::prose_phrases();
    assert(l.len() == 11);
    assert(has_prose_phrase(s) <==> (text::has_substring(s, l[0]) || text::has_substring(s, l[1])
        || text::has_substring(s, l[2]) || text::has_substring(s, l[3]) || text::has_substring(
        s,
        l[4],
    ) || text::has_substring(s, l[5]) || text::has_substring(s, l[6]) || text::has_substring(
        s,
        l[7],
    ) || text::has_substring(s, l[8]) || text::has_substring(s, l[9]) || text::has_substring(
        s,
        l[10],
    )));
}

/// An answer is taken for a mere announcement exactly if there is a request, no tool
/// work shows after the last one, it does not ask for prose, and the answer, in
/// lower case and with plain apostrophes, only announces work.
pub proof fn law_when_an_answer_is_no_answer(
    answer: &str,
    history: &[ChatMessage],
    checkpoint: &str,
    requests: Seq<bool>,
    calls: Seq<json::JsonField>,
    rounds: Seq<bool>,
    lowered: &str,
    preamble: bool,
    r: bool,
)
    requires
        requests.len() == history@.len(),
        calls.len() == history@.len(),
        rounds.len() == history@.len(),
        forall|i: int|
            0 <= i < history@.len() ==> call_ensures(
                states_request,
                (&#[trigger] history@[i], checkpoint),
                requests[i],
            ) && calls[i]@ == json::field_of(history@[i].content@, "tool_calls"@) && call_ensures(
                shows_tool_round,
                (&history@[i], &calls[i]),
                rounds[i],
            ),
        lowered@ == completion_repair::lowercase(
            text::trimmed(answer@).map_values(
                |c: char|
                    if c == '\u{2019}' {
                        '\''
                    } else {
                        c
                    },
            ),
        ),
        call_ensures(is_progress_preamble, (lowered,), preamble),
        call_ensures(is_initial_progress_only, (answer, history, checkpoint), r),
    ensures
        r <==> exists|at: int|
            0 <= at < history@.len() && #[trigger] requests[at] && (forall|k: int|
                at < k < history@.len() ==> !(#[trigger] requests[k]) && !rounds[k]) && preamble
                && !completion_repair::asks_for_prose(
                text::pieces(
                    completion_repair::lowercase(history@[at].content@),
                    |c: char| !completion_repair::is_alphabetic(c),
                ),
                completion_repair::lowercase(history@[at].content@),
            ),
{
    let views = message::conversation(history@);
    assert(views.len() == history@.len());
    assert forall|i: int| 0 <= i < history@.len() implies (#[trigger] history@[i])@
        == views[i] by {}
    assert forall|i: int| 0 <= i < views.len() implies requests[i]
        == completion_repair::is_request(#[trigger] views[i], checkpoint@) && rounds[i]
        == completion_repair::shows_tool_work(views[i]) by {
        assert(history@[i]@ == views[i]);
    }
    lemma_last_request(views, checkpoint@);
    let plain = text::trimmed(answer@).map_values(
        |c: char|
            if c == '\u{2019}' {
                '\''
            } else {
                c
            },
    );
    assert(plain =~= completion_repair::straight_apostrophes(text::trimmed(answer@)));
    match completion_repair::last_request(views, checkpoint@) {
        Some(at) => {
            assert(requests[at] == completion_repair::is_request(views[at], checkpoint@));
            assert(history@[at]@ == views[at]);
            assert forall|k: int| at < k < history@.len() implies !(#[trigger] requests[k]) by {
                assert(!completion_repair::is_request(views[k], checkpoint@));
            }
            if r {
                assert forall|k: int| at < k < history@.len() implies !(#[trigger] requests[k])
                    && !rounds[k] by {
                    assert(!completion_repair::shows_tool_work(views[k]));
                }
            }
            if exists|b: int|
                0 <= b < history@.len() && #[trigger] requests[b] && (forall|k: int|
                    b < k < history@.len() ==> !(#[trigger] requests[k]) && !rounds[k]) {
                let b = choose|b: int|
                    0 <= b < history@.len() && #[trigger] requests[b] && (forall|k: int|
                        b < k < history@.len() ==> !(#[trigger] requests[k]) && !rounds[k]);
                assert(b == at) by {
                    if b < at {
                        assert(requests[at]);
                    } else if at < b {
                        assert(!requests[b]);
                    }
                }
                assert forall|k: int|
                    at < k < views.len() implies !completion_repair::shows_tool_work(
                    #[trigger] views[k],
                ) by {
                    assert(!requests[k] && !rounds[k]);
                }
            }
        },
        None => {
            assert forall|b: int| 0 <= b < history@.len() implies !(#[trigger] requests[b]) by {
                assert(!completion_repair::is_request(views[b], checkpoint@));
            }
        },
    }
}

proof fn lemma_last_request(history: Seq<message::MessageView>, checkpoint: Seq<char>)
    ensures
        match completion_repair::last_request(history, checkpoint) {
            Some(at) => 0 <= at < history.len() && completion_repair::is_request(
                history[at],
                checkpoint,
            ) && forall|k: int|
                at < k < history.len() ==> !completion_repair::is_request(
                    #[trigger] history[k],
                    checkpoint,
                ),
            None => forall|k: int|
                0 <= k < history.len() ==> !completion_repair::is_request(
                    #[trigger] history[k],
                    checkpoint,
                ),
        },
    decreases history.len(),
{
    if history.len() > 0 && !completion_repair::is_request(history.last(), checkpoint) {
        let init = history.drop_last();
        lemma_last_request(init, checkpoint);
        assert forall|k: int| 0 <= k < init.len() implies #[trigger] history[k] == init[k] by {}
    }
}

} // verus!
