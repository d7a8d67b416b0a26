//! Conservative recovery for an initial progress preamble mistaken for a final answer.
//!
//! History owns the request and evidence of tool work. This is not a general
//! completion classifier: uncertain prose stays final, and a turn that has
//! already attempted tools is never replayed because of this heuristic.

use crate::json;
use crate::text;
use crate::turn::message;
use crate::turn::message::ChatMessage;
use vstd::prelude::*;
use vstd::string::*;

verus! {

/// What is added to the system prompt when a preamble has to be completed.
pub const INSTRUCTION: &'static str = "[Complete the current request]\n\
    Your last response only announced work; no tool work has started for this request. \
    A progress update does not complete it. Continue the user's original request now: \
    use the available tools only when the authorized task requires them, or give the \
    actual answer, a necessary clarification, or a concrete blocker. Do not send another \
    promise to act later. Do not repeat completed actions, invent results, bypass policy, \
    or treat this reminder as new authorization.";

/// The position of the first system message.
pub open spec fn first_system(messages: Seq<message::MessageView>) -> Option<int>
    decreases messages.len(),
{
    if messages.len() == 0 {
        None
    } else {
        match first_system(messages.drop_last()) {
            Some(i) => Some(i),
            None => if messages.last().role == "system"@ {
                Some(messages.len() - 1)
            } else {
                None
            },
        }
    }
}

/// `messages` with the instruction at the end of the first system message, or
/// in a system message of its own at the front.
pub open spec fn with_instruction(messages: Seq<message::MessageView>) -> Seq<
    message::MessageView,
> {
    match first_system(messages) {
        Some(i) => messages.update(
            i,
            message::MessageView {
                role: messages[i].role,
                content: messages[i].content + "\n\n"@ + INSTRUCTION@,
            },
        ),
        None => seq![message::MessageView { role: "system"@, content: INSTRUCTION@ }] + messages,
    }
}

/// Adds the instruction to the first system message, or puts one in front.
pub fn append_instruction(messages: &mut Vec<ChatMessage>)
    ensures
        message::conversation(final(messages)@) == with_instruction(
            message::conversation(old(messages)@),
        ),
{
    let ghost before = message::conversation(messages@);
    let mut i: usize = 0;
    while i < messages.len()
        invariant
            i <= messages.len(),
            messages@ == old(messages)@,
            before == message::conversation(old(messages)@),
            first_system(before.take(i as int)) is None,
        decreases messages.len() - i,
    {
        assert(before.take(i + 1).drop_last() == before.take(i as int));
        if text::str_eq(messages[i].role.as_str(), "system") {
            assert(before[i as int].role == "system"@);
            let role = messages[i].role.clone();
            let mut content = messages[i].content.clone();
            content.append("\n\n");
            content.append(INSTRUCTION);
            messages.set(i, ChatMessage { role, content });
            proof {
                lemma_first_system_at(before, i as int);
                assert(message::conversation(messages@) =~= with_instruction(before));
            }
            return ;
        }
        i += 1;
    }
    assert(before.take(i as int) == before);
    messages.insert(0, ChatMessage::system(INSTRUCTION));
    assert(message::conversation(messages@) =~= with_instruction(before));
}

proof fn lemma_first_system_at(messages: Seq<message::MessageView>, i: int)
    requires
        0 <= i < messages.len(),
        first_system(messages.take(i)) is None,
        messages[i].role == "system"@,
    ensures
        first_system(messages) == Some(i),
    decreases messages.len() - i,
{
    assert(messages.take(i + 1).drop_last() == messages.take(i));
    lemma_first_system_prefix(messages, i + 1);
}

proof fn lemma_first_system_prefix(messages: Seq<message::MessageView>, n: int)
    requires
        0 <= n <= messages.len(),
        first_system(messages.take(n)) is Some,
    ensures
        first_system(messages) == first_system(messages.take(n)),
    decreases messages.len() - n,
{
    if n < messages.len() {
        assert(messages.take(n + 1).drop_last() == messages.take(n));
        lemma_first_system_prefix(messages, n + 1);
    } else {
        assert(messages.take(n) == messages);
    }
}

/// Whether `c` has the Unicode `Alphabetic` property.
pub uninterp spec fn is_alphabetic(c: char) -> bool;

/// `char::is_alphabetic` depends on the character alone. Which characters are
/// alphabetic is left to the name.
pub assume_specification[ char::is_alphabetic ](c: char) -> (r: bool)
    ensures
        r == is_alphabetic(c),
;

/// The Unicode lowercase of `s`.
pub uninterp spec fn lowercase(s: Seq<char>) -> Seq<char>;

/// `str::to_lowercase` depends on the characters alone. What each is mapped to
/// is left to the name.
#[verifier::external_body]
pub(crate) fn to_lowercase(s: &str) -> (out: String)
    ensures
        out@ == lowercase(s@),
{
    s.to_lowercase()
}

/// The characters that are not alphabetic.
pub struct NotAlphabetic;

impl text::CharClass for NotAlphabetic {
    open spec fn has(&self, c: char) -> bool {
        !is_alphabetic(c)
    }

    fn test(&self, c: char) -> (r: bool) {
        !c.is_alphabetic()
    }
}

/// Whether a message states a request of its own: it is the user's, and neither
/// a tool report nor the runtime's checkpoint.
pub open spec fn is_request(m: message::MessageView, checkpoint: Seq<char>) -> bool {
    &&& m.role == "user"@
    &&& !"[Tool results]"@.is_prefix_of(m.content)
    &&& !"[Tool call parse error]"@.is_prefix_of(m.content)
    &&& m.content != checkpoint
}

/// The position of the last request.
pub open spec fn last_request(history: Seq<message::MessageView>, checkpoint: Seq<char>) -> Option<
    int,
>
    decreases history.len(),
{
    if history.len() == 0 {
        None
    } else if is_request(history.last(), checkpoint) {
        Some(history.len() - 1)
    } else {
        last_request(history.drop_last(), checkpoint)
    }
}

/// Whether a message shows that a tool round has taken place, given what its
/// content holds under `tool_calls`.
pub open spec fn shows_tool_work_given(
    m: message::MessageView,
    tool_calls: json::JsonFieldView,
) -> bool {
    ||| m.role == "tool"@
    ||| "[Tool results]"@.is_prefix_of(m.content)
    ||| m.role == "assistant"@ && (tool_calls matches json::JsonFieldView::Items(n) && n > 0)
}

/// Whether a message shows that a tool round has taken place.
pub open spec fn shows_tool_work(m: message::MessageView) -> bool {
    shows_tool_work_given(m, json::field_of(m.content, "tool_calls"@))
}

/// Words of a request that asks for wording, a plan or a report.
pub open spec fn prose_words() -> Seq<Seq<char>> {
    seq![
        "quote"@,
        "quoted"@,
        "repeat"@,
        "rewrite"@,
        "rephrase"@,
        "paraphrase"@,
        "translate"@,
        "translation"@,
        "sentence"@,
        "wording"@,
        "grammar"@,
        "example"@,
        "plan"@,
        "planning"@,
        "strategy"@,
        "steps"@,
        "status"@,
    ]
}

/// Phrases of a request that asks for wording, a plan or a report.
pub open spec fn prose_phrases() -> Seq<Seq<char>> {
    seq![
        "what are you doing"@,
        "what will you"@,
        "how would you"@,
        "how do i"@,
        "how to "@,
        "respond with "@,
        "reply with "@,
        "say exactly "@,
        "write an update"@,
        "write a message"@,
        "draft a "@,
    ]
}

/// Whether one of `words`, or a phrase of `request`, asks for first-person
/// prose.
pub open spec fn asks_for_prose(words: Seq<Seq<char>>, request: Seq<char>) -> bool {
    ||| exists|i: int| 0 <= i < words.len() && prose_words().contains(#[trigger] words[i])
    ||| text::has_substring_in(request, prose_phrases())
}

/// Verbs that announce the start of work.
pub open spec fn action_verbs(progressive: bool) -> Seq<Seq<char>> {
    if progressive {
        seq![
            "checking"@,
            "reviewing"@,
            "retrieving"@,
            "fetching"@,
            "inspecting"@,
            "searching"@,
            "reading"@,
            "verifying"@,
            "testing"@,
            "investigating"@,
        ]
    } else {
        seq![
            "check"@,
            "review"@,
            "retrieve"@,
            "fetch"@,
            "inspect"@,
            "search"@,
            "read"@,
            "verify"@,
            "test"@,
            "investigate"@,
        ]
    }
}

/// What may follow `look` or `looking` in an announcement.
pub open spec fn look_objects() -> Seq<Seq<char>> {
    seq!["up "@, "into "@, "at "@, "through "@, "for "@]
}

/// Progressive phrases that announce a review.
pub open spec fn review_phrases() -> Seq<Seq<char>> {
    seq![
        "doing the review "@,
        "doing the actual review "@,
        "doing the check "@,
        "doing the actual check "@,
    ]
}

/// Phrases that turn an announcement into a result or a blocker.
pub open spec fn result_signals() -> Seq<Seq<char>> {
    seq![
        " but "@,
        " because "@,
        " found "@,
        " confirmed "@,
        " completed "@,
        " finished "@,
        " cannot "@,
        " can't "@,
        " need you "@,
        " already "@,
    ]
}

/// Whether `s` is one of `verbs`, a space, and anything.
pub open spec fn begins_with_verb(s: Seq<char>, verbs: Seq<Seq<char>>) -> bool {
    exists|i: int|
        0 <= i < verbs.len() && (#[trigger] verbs[i]).is_prefix_of(s) && " "@.is_prefix_of(
            s.skip(verbs[i].len() as int),
        )
}

/// Whether `s` announces work: an action verb, `look` with an object, or (in
/// the progressive) a review, with no sign of a result.
pub open spec fn announces_action(s: Seq<char>, progressive: bool) -> bool {
    let look = if progressive {
        "looking "@
    } else {
        "look "@
    };
    &&& {
        ||| look.is_prefix_of(s) && text::has_prefix_in(s.skip(look.len() as int), look_objects())
        ||| progressive && text::has_prefix_in(s, review_phrases())
        ||| begins_with_verb(s, action_verbs(progressive))
    }
    &&& !"reading this as "@.is_prefix_of(s)
    &&& !"read this as "@.is_prefix_of(s)
    &&& !text::has_substring_in(s, result_signals())
}

/// Whether `text` announces work.
pub fn starts_with_action(text: &[char], progressive: bool) -> (r: bool)
    ensures
        r == announces_action(text@, progressive),
{
    let verbs: [&str; 10] = if progressive {
        [
            "checking",
            "reviewing",
            "retrieving",
            "fetching",
            "inspecting",
            "searching",
            "reading",
            "verifying",
            "testing",
            "investigating",
        ]
    } else {
        [
            "check",
            "review",
            "retrieve",
            "fetch",
            "inspect",
            "search",
            "read",
            "verify",
            "test",
            "investigate",
        ]
    };
    assert(text::views(verbs@) =~= action_verbs(progressive));
    let look: &str = if progressive {
        "looking "
    } else {
        "look "
    };
    let objects: [&str; 5] = ["up ", "into ", "at ", "through ", "for "];
    assert(text::views(objects@) =~= look_objects());
    let reviews: [&str; 4] = [
        "doing the review ",
        "doing the actual review ",
        "doing the check ",
        "doing the actual check ",
    ];
    assert(text::views(reviews@) =~= review_phrases());
    let signals: [&str; 10] = [
        " but ",
        " because ",
        " found ",
        " confirmed ",
        " completed ",
        " finished ",
        " cannot ",
        " can't ",
        " need you ",
        " already ",
    ];
    assert(text::views(signals@) =~= result_signals());
    let looks: bool = match text::strip_prefix(text, look) {
        Some(tail) => text::starts_with_any(tail, &objects),
        None => false,
    };
    let specific: bool = looks || (progressive && text::starts_with_any(text, &reviews));
    (specific || starts_with_verb(text, &verbs)) && !text::starts_with(text, "reading this as ")
        && !text::starts_with(text, "read this as ") && !text::contains_any(text, &signals)
}

/// Whether `text` is one of `verbs`, a space, and anything.
fn starts_with_verb(text: &[char], verbs: &[&str]) -> (r: bool)
    ensures
        r == begins_with_verb(text@, text::views(verbs@)),
{
    let ghost list = text::views(verbs@);
    for i in 0..verbs.len()
        invariant
            list == text::views(verbs@),
            forall|k: int|
                0 <= k < i ==> !((#[trigger] list[k]).is_prefix_of(text@) && " "@.is_prefix_of(
                    text@.skip(list[k].len() as int),
                )),
    {
        assert(list[i as int] == verbs@[i as int]@);
        match text::strip_prefix(text, verbs[i]) {
            Some(tail) => if text::starts_with(tail, " ") {
                return true;
            },
            None => {},
        }
    }
    false
}

/// Whether `words`, the alphabetic words of `request`, or a phrase of `request`
/// ask for first-person prose.
pub fn requests_prose(words: &[Vec<char>], request: &[char]) -> (r: bool)
    ensures
        r == asks_for_prose(text::piece_views(words@), request@),
{
    let prose: [&str; 17] = [
        "quote",
        "quoted",
        "repeat",
        "rewrite",
        "rephrase",
        "paraphrase",
        "translate",
        "translation",
        "sentence",
        "wording",
        "grammar",
        "example",
        "plan",
        "planning",
        "strategy",
        "steps",
        "status",
    ];
    assert(text::views(prose@) =~= prose_words());
    let phrases: [&str; 11] = [
        "what are you doing",
        "what will you",
        "how would you",
        "how do i",
        "how to ",
        "respond with ",
        "reply with ",
        "say exactly ",
        "write an update",
        "write a message",
        "draft a ",
    ];
    assert(text::views(phrases@) =~= prose_phrases());
    let ghost list = text::piece_views(words@);
    for i in 0..words.len()
        invariant
            list == text::piece_views(words@),
            text::views(prose@) == prose_words(),
            forall|k: int| 0 <= k < i ==> !prose_words().contains(#[trigger] list[k]),
    {
        assert(list[i as int] == words@[i as int]@);
        if text::is_one_of(words[i].as_slice(), &prose) {
            return true;
        }
    }
    text::contains_any(request, &phrases)
}

/// Whether `c` keeps a text from being a preamble: line breaks, questions,
/// quotations, code, lists and figures.
pub open spec fn is_substantive_char(c: char) -> bool {
    ||| c == '\n'
    ||| c == '?'
    ||| c == ':'
    ||| c == '`'
    ||| c == '"'
    ||| c == '\u{201c}'
    ||| c == '\u{201d}'
    ||| c == '['
    ||| c == ']'
    ||| c == '/'
    ||| c == '='
    ||| '0' <= c <= '9'
}

/// The number of pieces that are not empty.
pub open spec fn nonempty_count(list: Seq<Seq<char>>) -> nat
    decreases list.len(),
{
    if list.len() == 0 {
        0
    } else {
        nonempty_count(list.drop_last()) + (if list.last().len() > 0 {
            1nat
        } else {
            0nat
        })
    }
}

/// The number of words of `s` between white space.
pub open spec fn word_count(s: Seq<char>) -> nat {
    nonempty_count(text::pieces(s, |c: char| text::is_whitespace(c)))
}

/// The sentences of `s`: what stands between full stops, exclamation marks and
/// semicolons, without the white space around it.
pub open spec fn sentences(s: Seq<char>) -> Seq<Seq<char>> {
    text::pieces(s, |c: char| c == '.' || c == '!' || c == ';').map_values(
        |p: Seq<char>| text::trimmed(p),
    )
}

/// A sentence without an opening `first`.
pub open spec fn without_first(sentence: Seq<char>) -> Seq<char> {
    if "first, "@.is_prefix_of(sentence) {
        sentence.skip("first, "@.len() as int)
    } else if "first "@.is_prefix_of(sentence) {
        sentence.skip("first "@.len() as int)
    } else {
        sentence
    }
}

/// What follows the first of two prefixes that `s` begins with.
pub open spec fn after_either(s: Seq<char>, a: Seq<char>, b: Seq<char>) -> Option<Seq<char>> {
    if a.is_prefix_of(s) {
        Some(s.skip(a.len() as int))
    } else {
        text::after_prefix(s, b)
    }
}

/// Whether a sentence announces work of the speaker, under way or to come.
pub open spec fn is_action_sentence(s: Seq<char>) -> bool {
    ||| (after_either(s, "i'm "@, "i am "@) matches Some(rest) && announces_action(rest, true))
    ||| (after_either(s, "i'll "@, "i will "@) matches Some(rest) && announces_action(
        rest,
        false,
    ))
}

/// Phrases that promise a later report.
pub open spec fn followup_phrases() -> Seq<Seq<char>> {
    seq!["give you "@, "let you know "@, "report back "@, "get back to you "@]
}

/// Sentences that only acknowledge the user.
pub open spec fn acknowledgments() -> Seq<Seq<char>> {
    seq!["i'm here"@, "i am here"@, "i dropped the follow-through"@]
}

/// Whether a sentence can stand in a preamble.
pub open spec fn is_preamble_sentence(s: Seq<char>) -> bool {
    ||| is_action_sentence(s)
    ||| (after_either(s, "i'll "@, "i will "@) matches Some(rest) && text::has_prefix_in(
        rest,
        followup_phrases(),
    ))
    ||| acknowledgments().contains(s)
}

/// Whether the lowercase text `s` only announces work: short, without anything
/// substantive, every sentence a preamble, and one of them an action.
pub open spec fn is_preamble(s: Seq<char>) -> bool {
    let list = sentences(s);
    &&& s.len() > 0
    &&& text::byte_len(s) <= 600
    &&& word_count(s) <= 90
    &&& forall|i: int| 0 <= i < s.len() ==> !is_substantive_char(#[trigger] s[i])
    &&& forall|i: int|
        0 <= i < list.len() ==> (#[trigger] list[i]).len() > 0 ==> is_preamble_sentence(
            without_first(list[i]),
        )
    &&& exists|i: int|
        0 <= i < list.len() && (#[trigger] list[i]).len() > 0 && is_action_sentence(
            without_first(list[i]),
        )
}

/// How a sentence bears on a preamble.
pub enum SentenceKind {
    /// It announces work.
    Action,
    /// It promises a report or acknowledges the user.
    Filler,
    /// It says something else.
    Substantive,
}

/// Classifies one sentence, given without the white space around it.
pub fn classify_sentence(sentence: &[char]) -> (r: SentenceKind)
    ensures
        r is Action <==> is_action_sentence(without_first(sentence@)),
        r is Substantive <==> !is_preamble_sentence(without_first(sentence@)),
{
    let s: &[char] = match text::strip_prefix(sentence, "first, ") {
        Some(rest) => rest,
        None => match text::strip_prefix(sentence, "first ") {
            Some(rest) => rest,
            None => sentence,
        },
    };
    assert(s@ == without_first(sentence@));
    let present: Option<&[char]> = strip_either(s, "i'm ", "i am ");
    let immediate: bool = match present {
        Some(rest) => starts_with_action(rest, true),
        None => false,
    };
    let future: Option<&[char]> = strip_either(s, "i'll ", "i will ");
    let future_action: bool = match future {
        Some(rest) => starts_with_action(rest, false),
        None => false,
    };
    let phrases: [&str; 4] = ["give you ", "let you know ", "report back ", "get back to you "];
    assert(text::views(phrases@) =~= followup_phrases());
    let followup: bool = match future {
        Some(rest) => text::starts_with_any(rest, &phrases),
        None => false,
    };
    let greetings: [&str; 3] = ["i'm here", "i am here", "i dropped the follow-through"];
    assert(text::views(greetings@) =~= acknowledgments());
    let acknowledgment: bool = text::is_one_of(s, &greetings);
    if immediate || future_action {
        SentenceKind::Action
    } else if followup || acknowledgment {
        SentenceKind::Filler
    } else {
        SentenceKind::Substantive
    }
}

/// What follows the first of two prefixes that `s` begins with.
fn strip_either<'a>(s: &'a [char], a: &str, b: &str) -> (r: Option<&'a [char]>)
    ensures
        match r {
            Some(rest) => after_either(s@, a@, b@) == Some(rest@),
            None => after_either(s@, a@, b@) is None,
        },
{
    match text::strip_prefix(s, a) {
        Some(rest) => Some(rest),
        None => text::strip_prefix(s, b),
    }
}

/// The number of words of `s` between white space.
fn count_words(s: &[char]) -> (n: usize)
    ensures
        n == word_count(s@),
{
    let parts: Vec<Vec<char>> = text::split(s, &text::Whitespace);
    let ghost list = text::piece_views(parts@);
    assert((|c: char| text::CharClass::has(&text::Whitespace, c)) =~= (|c: char|
        text::is_whitespace(c)));
    let mut n: usize = 0;
    for i in 0..parts.len()
        invariant
            list == text::piece_views(parts@),
            n == nonempty_count(list.take(i as int)),
            n <= i,
    {
        assert(list.take(i + 1).drop_last() == list.take(i as int));
        assert(list[i as int] == parts@[i as int]@);
        if parts[i].len() > 0 {
            n += 1;
        }
    }
    assert(list.take(parts.len() as int) == list);
    n
}

/// Whether a character of `s` keeps it from being a preamble.
fn has_substantive_char(s: &[char]) -> (r: bool)
    ensures
        r == exists|i: int| 0 <= i < s@.len() && is_substantive_char(#[trigger] s@[i]),
{
    for i in 0..s.len()
        invariant
            forall|k: int| 0 <= k < i ==> !is_substantive_char(#[trigger] s@[k]),
    {
        let c: char = s[i];
        if c == '\n' || c == '?' || c == ':' || c == '`' || c == '"' || c == '\u{201c}' || c
            == '\u{201d}' || c == '[' || c == ']' || c == '/' || c == '=' || ('0' <= c && c
            <= '9') {
            assert(is_substantive_char(s@[i as int]));
            return true;
        }
    }
    false
}

/// Whether `lowered`, the lowercase of a trimmed answer, only announces work.
pub fn is_progress_preamble(lowered: &str) -> (r: bool)
    ensures
        r == is_preamble(lowered@),
{
    let s: Vec<char> = text::chars_of(lowered);
    if s.len() == 0 || text::len_bytes(lowered) > 600 || count_words(s.as_slice()) > 90
        || has_substantive_char(s.as_slice()) {
        return false;
    }
    let stops: [char; 3] = ['.', '!', ';'];
    let class = text::AnyOf(&stops);
    let parts: Vec<Vec<char>> = text::split(s.as_slice(), &class);
    let ghost list = sentences(lowered@);
    proof {
        assert forall|c: char| text::CharClass::has(&class, c) == (c == '.' || c == '!' || c
            == ';') by {
            assert(stops@[0] == '.' && stops@[1] == '!' && stops@[2] == ';');
        }
        assert((|c: char| text::CharClass::has(&class, c)) =~= (|c: char|
            c == '.' || c == '!' || c == ';'));
    }
    let mut action_seen: bool = false;
    for i in 0..parts.len()
        invariant
            list == sentences(lowered@),
            list == text::piece_views(parts@).map_values(|p: Seq<char>| text::trimmed(p)),
            forall|k: int|
                0 <= k < i ==> (#[trigger] list[k]).len() > 0 ==> is_preamble_sentence(
                    without_first(list[k]),
                ),
            action_seen == exists|k: int|
                0 <= k < i && (#[trigger] list[k]).len() > 0 && is_action_sentence(
                    without_first(list[k]),
                ),
    {
        let sentence: &[char] = text::trim(parts[i].as_slice());
        assert(sentence@ == list[i as int]);
        if sentence.len() > 0 {
            match classify_sentence(sentence) {
                SentenceKind::Action => {
                    action_seen = true;
                },
                SentenceKind::Filler => {},
                SentenceKind::Substantive => {
                    return false;
                },
            }
        }
    }
    action_seen
}

/// `s` with the typographic apostrophe written as the plain one.
pub open spec fn straight_apostrophes(s: Seq<char>) -> Seq<char> {
    s.map_values(
        |c: char|
            if c == '\u{2019}' {
                '\''
            } else {
                c
            },
    )
}

/// The typographic apostrophes of `s` written as plain ones.
fn straighten(s: &[char]) -> (out: Vec<char>)
    ensures
        out@ == straight_apostrophes(s@),
{
    let mut out: Vec<char> = Vec::new();
    for i in 0..s.len()
        invariant
            out@ == straight_apostrophes(s@.take(i as int)),
    {
        let c: char = if s[i] == '\u{2019}' {
            '\''
        } else {
            s[i]
        };
        out.push(c);
        assert(out@ =~= straight_apostrophes(s@.take(i + 1)));
    }
    assert(s@.take(s.len() as int) == s@);
    out
}

/// Whether `text`, the answer to the last request of `history`, only announces
/// work that no tool has begun. `checkpoint` is the runtime's own message that
/// marks an unfinished turn.
pub open spec fn is_initial_progress(
    answer: Seq<char>,
    history: Seq<message::MessageView>,
    checkpoint: Seq<char>,
) -> bool {
    match last_request(history, checkpoint) {
        None => false,
        Some(at) => {
            let request = lowercase(history[at].content);
            &&& forall|k: int| at < k < history.len() ==> !shows_tool_work(#[trigger] history[k])
            &&& !asks_for_prose(text::pieces(request, |c: char| !is_alphabetic(c)), request)
            &&& is_preamble(lowercase(straight_apostrophes(text::trimmed(answer))))
        },
    }
}

/// Whether a message states a request of its own.
pub fn states_request(m: &ChatMessage, checkpoint: &str) -> (r: bool)
    ensures
        r == is_request(m@, checkpoint@),
{
    let content: Vec<char> = text::chars_of(m.content.as_str());
    text::str_eq(m.role.as_str(), "user") && !text::starts_with(
        content.as_slice(),
        "[Tool results]",
    ) && !text::starts_with(content.as_slice(), "[Tool call parse error]") && !text::str_eq(
        m.content.as_str(),
        checkpoint,
    )
}

/// Whether a message shows a tool round, given what its content holds under
/// `tool_calls`.
pub fn shows_tool_round(m: &ChatMessage, tool_calls: &json::JsonField) -> (r: bool)
    ensures
        r == shows_tool_work_given(m@, tool_calls@),
{
    let content: Vec<char> = text::chars_of(m.content.as_str());
    text::str_eq(m.role.as_str(), "tool") || text::starts_with(
        content.as_slice(),
        "[Tool results]",
    ) || (text::str_eq(m.role.as_str(), "assistant") && match tool_calls {
        json::JsonField::Items(n) => *n > 0,
        _ => false,
    })
}

/// Whether `text` answers the last request of `history` with nothing but an
/// announcement of work that no tool has begun.
pub fn is_initial_progress_only(
    text: &str,
    history: &[ChatMessage],
    checkpoint: &str,
) -> (r: bool)
    ensures
        r == is_initial_progress(text@, message::conversation(history@), checkpoint@),
{
    let ghost views = message::conversation(history@);
    let mut n: usize = history.len();
    assert(views.take(n as int) == views);
    while n > 0 && !states_request(&history[n - 1], checkpoint)
        invariant
            n <= history.len(),
            views == message::conversation(history@),
            last_request(views, checkpoint@) == last_request(views.take(n as int), checkpoint@),
        decreases n,
    {
        assert(views.take(n as int).drop_last() == views.take(n - 1));
        assert(views.take(n as int).last() == history@[n - 1]@);
        n -= 1;
    }
    if n == 0 {
        return false;
    }
    let at: usize = n - 1;
    assert(views.take(n as int).last() == history@[at as int]@);
    assert(last_request(views, checkpoint@) == Some(at as int));
    for k in n..history.len()
        invariant
            views == message::conversation(history@),
            n == at + 1,
            last_request(views, checkpoint@) == Some(at as int),
            forall|j: int| at < j < k ==> !shows_tool_work(#[trigger] views[j]),
    {
        let calls = json::field(history[k].content.as_str(), "tool_calls");
        assert(views[k as int] == history@[k as int]@);
        if shows_tool_round(&history[k], &calls) {
            assert(shows_tool_work(views[k as int]));
            return false;
        }
    }
    let request: Vec<char> = text::chars_of(to_lowercase(history[at].content.as_str()).as_str());
    let words: Vec<Vec<char>> = text::split(request.as_slice(), &NotAlphabetic);
    assert((|c: char| text::CharClass::has(&NotAlphabetic, c)) =~= (|c: char| !is_alphabetic(c)));
    if requests_prose(words.as_slice(), request.as_slice()) {
        return false;
    }
    let answer: Vec<char> = text::chars_of(text);
    let plain: String = text::string_of(straighten(text::trim(answer.as_slice())).as_slice());
    is_progress_preamble(to_lowercase(plain.as_str()).as_str())
}

/// A turn in which tool work shows after the last request is never repeated on
/// account of what its answer says.
pub proof fn law_tool_work_is_never_repeated(
    answer: Seq<char>,
    history: Seq<message::MessageView>,
    checkpoint: Seq<char>,
    k: int,
)
    requires
        last_request(history, checkpoint) matches Some(at) && at < k < history.len(),
        shows_tool_work(history[k]),
    ensures
        !is_initial_progress(answer, history, checkpoint),
{
}

/// An answer with one sentence that says anything else than what a preamble says
/// is final, whatever stands around that sentence.
pub proof fn law_one_substantive_sentence_is_final(
    answer: Seq<char>,
    history: Seq<message::MessageView>,
    checkpoint: Seq<char>,
    i: int,
)
    requires
        ({
            let list = sentences(lowercase(straight_apostrophes(text::trimmed(answer))));
            &&& 0 <= i < list.len()
            &&& list[i].len() > 0
            &&& !is_preamble_sentence(without_first(list[i]))
        }),
    ensures
        !is_initial_progress(answer, history, checkpoint),
{
}

} // verus!
