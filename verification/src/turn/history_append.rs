//! History append for one tool round: the assistant message plus per-call
//! `role=tool` messages (native) or a `[Tool results]` user message (prompt
//! mode).

use crate::json;
use crate::text;
use crate::turn::message;
use crate::turn::message::ChatMessage;
use crate::turn::tool;
use vstd::prelude::*;
use vstd::string::*;

verus! {

/// A tool call in the form that the model's provider sent it.
pub struct ToolCall {
    pub id: String,
    pub name: String,
    pub arguments: String,
}

/// The identifiers of native tool calls.
pub open spec fn call_ids(calls: Seq<ToolCall>) -> Seq<Seq<char>> {
    calls.map_values(|c: ToolCall| c.id@)
}

/// The model of a result that goes into history.
pub open spec fn individual_view(r: (Option<String>, String)) -> (Option<Seq<char>>, Seq<char>) {
    (tool::opt(r.0), r.1@)
}

/// The model of the results that go into history.
pub open spec fn individual_views(results: Seq<(Option<String>, String)>) -> Seq<
    (Option<Seq<char>>, Seq<char>),
> {
    results.map_values(|r: (Option<String>, String)| individual_view(r))
}

/// The native envelope of a result: a JSON object with the result and the
/// identifier of its call.
pub open spec fn native_content(id: Option<Seq<char>>, result: Seq<char>) -> Seq<char> {
    "{\"content\":"@ + json::string_json(result) + ",\"tool_call_id\":"@ + tool::opt_json(id)
        + "}"@
}

/// The native envelope of a result. Admission measures it and history holds it.
pub fn native_tool_result_content(tool_call_id: &Option<String>, result: &str) -> (out: String)
    ensures
        out@ == native_content(tool::opt(*tool_call_id), result@),
{
    let mut out: String = String::new();
    out.append("{\"content\":");
    let t: String = json::string_text(result);
    out.append(t.as_str());
    out.append(",\"tool_call_id\":");
    tool::push_opt(&mut out, tool_call_id);
    out.append("}");
    assert(out@ =~= native_content(tool::opt(*tool_call_id), result@));
    out
}

/// The identifier under which the result at `i` is reported: its own, or that of
/// the native call at its position.
pub open spec fn resolved_id(
    results: Seq<(Option<Seq<char>>, Seq<char>)>,
    ids: Seq<Seq<char>>,
    i: int,
) -> Option<Seq<char>> {
    match results[i].0 {
        Some(id) => Some(id),
        None => if i < ids.len() {
            Some(ids[i])
        } else {
            None
        },
    }
}

/// One tool message for each result.
pub open spec fn native_messages(
    results: Seq<(Option<Seq<char>>, Seq<char>)>,
    ids: Seq<Seq<char>>,
) -> Seq<message::MessageView> {
    Seq::new(
        results.len(),
        |i: int|
            message::MessageView {
                role: "tool"@,
                content: native_content(resolved_id(results, ids, i), results[i].1),
            },
    )
}

/// The message that reports all results as text.
pub open spec fn prompt_message(tool_results: Seq<char>) -> message::MessageView {
    message::MessageView { role: "user"@, content: "[Tool results]\n"@ + tool_results }
}

/// The messages that report a round.
pub open spec fn round_messages(
    ids: Seq<Seq<char>>,
    results: Seq<(Option<Seq<char>>, Seq<char>)>,
    tool_results: Seq<char>,
    use_native_tools: bool,
) -> Seq<message::MessageView> {
    if ids.len() > 0 || (use_native_tools && results.len() > 0 && forall|i: int|
        0 <= i < results.len() ==> (#[trigger] results[i]).0 is Some) {
        native_messages(results, ids)
    } else {
        seq![prompt_message(tool_results)]
    }
}

/// Appends the assistant's message of a round and the messages that report the
/// results.
pub fn append_tool_round_to_history(
    history: &mut Vec<ChatMessage>,
    assistant_history_content: String,
    native_tool_calls: &[ToolCall],
    individual_results: &[(Option<String>, String)],
    tool_results: &str,
    use_native_tools: bool,
)
    ensures
        message::conversation(final(history)@) == message::conversation(old(history)@) + seq![
            message::MessageView { role: "assistant"@, content: assistant_history_content@ },
        ] + round_messages(
            call_ids(native_tool_calls@),
            individual_views(individual_results@),
            tool_results@,
            use_native_tools,
        ),
{
    let ghost results = individual_views(individual_results@);
    let ghost ids = call_ids(native_tool_calls@);
    let ghost start = message::conversation(history@);
    history.push(
        ChatMessage { role: "assistant".to_owned(), content: assistant_history_content },
    );
    let ghost base = message::conversation(history@);
    assert(base =~= start + seq![
        message::MessageView { role: "assistant"@, content: assistant_history_content@ },
    ]);
    let native: bool = native_tool_calls.len() > 0 || (use_native_tools
        && individual_results.len() > 0 && all_have_ids(individual_results));
    if native {
        for i in 0..individual_results.len()
            invariant
                results == individual_views(individual_results@),
                ids == call_ids(native_tool_calls@),
                message::conversation(history@) == base + native_messages(results, ids).take(
                    i as int,
                ),
        {
            assert(results[i as int] == individual_view(individual_results@[i as int]));
            let id: Option<String> = match &individual_results[i].0 {
                Some(id) => Some(id.clone()),
                None => if i < native_tool_calls.len() {
                    Some(native_tool_calls[i].id.clone())
                } else {
                    None
                },
            };
            assert(tool::opt(id) == resolved_id(results, ids, i as int));
            let content: String = native_tool_result_content(
                &id,
                individual_results[i].1.as_str(),
            );
            let ghost before = history@;
            history.push(ChatMessage { role: "tool".to_owned(), content });
            assert(message::conversation(history@) =~= message::conversation(before).push(
                native_messages(results, ids)[i as int],
            ));
            assert(native_messages(results, ids).take(i + 1) =~= native_messages(results, ids).take(
                i as int,
            ).push(native_messages(results, ids)[i as int]));
        }
        assert(native_messages(results, ids).take(individual_results@.len() as int)
            =~= native_messages(results, ids));
    } else {
        let mut content: String = "[Tool results]\n".to_owned();
        content.append(tool_results);
        let ghost before = history@;
        history.push(ChatMessage { role: "user".to_owned(), content });
        assert(message::conversation(history@) =~= message::conversation(before).push(
            prompt_message(tool_results@),
        ));
    }
}

/// Whether every result has an identifier of its own.
fn all_have_ids(results: &[(Option<String>, String)]) -> (r: bool)
    ensures
        r == forall|i: int|
            0 <= i < individual_views(results@).len() ==> (#[trigger] individual_views(
                results@,
            )[i]).0 is Some,
{
    let ghost views = individual_views(results@);
    for i in 0..results.len()
        invariant
            views == individual_views(results@),
            forall|j: int| 0 <= j < i ==> (#[trigger] views[j]).0 is Some,
    {
        assert(views[i as int] == individual_view(results@[i as int]));
        if results[i].0.is_none() {
            assert(views[i as int].0 is None);
            return false;
        }
    }
    true
}

/// A message as JSON text.
pub open spec fn message_json(m: message::MessageView) -> Seq<char> {
    "{\"role\":"@ + json::string_json(m.role) + ",\"content\":"@ + json::string_json(m.content)
        + "}"@
}

/// Messages as JSON text, each after the first preceded by a comma.
pub open spec fn joined_messages(messages: Seq<message::MessageView>) -> Seq<char>
    decreases messages.len(),
{
    if messages.len() == 0 {
        Seq::empty()
    } else if messages.len() == 1 {
        message_json(messages[0])
    } else {
        joined_messages(messages.drop_last()) + ","@ + message_json(messages.last())
    }
}

/// Messages as a JSON array.
pub open spec fn messages_json(messages: Seq<message::MessageView>) -> Seq<char> {
    "["@ + joined_messages(messages) + "]"@
}

/// The number of bytes of a message's JSON text.
pub fn encoded_message_size(m: &ChatMessage) -> (n: usize)
    ensures
        n == text::byte_len(message_json(m@)),
{
    let mut out: String = String::new();
    out.append("{\"role\":");
    let t: String = json::string_text(m.role.as_str());
    out.append(t.as_str());
    out.append(",\"content\":");
    let t: String = json::string_text(m.content.as_str());
    out.append(t.as_str());
    out.append("}");
    assert(out@ =~= message_json(m@));
    text::len_bytes(out.as_str())
}

/// Where the model called tools natively, every result is reported in a message of
/// its own and under its own identifier, also where there are more results than
/// calls: no call is left without its result.
pub proof fn law_every_result_is_reported(
    ids: Seq<Seq<char>>,
    results: Seq<(Option<Seq<char>>, Seq<char>)>,
    tool_results: Seq<char>,
    use_native_tools: bool,
)
    requires
        ids.len() > 0,
    ensures
        ({
            let messages = round_messages(ids, results, tool_results, use_native_tools);
            &&& messages.len() == results.len()
            &&& forall|i: int|
                0 <= i < results.len() ==> (#[trigger] messages[i]).role == "tool"@
                    && messages[i].content == native_content(
                    resolved_id(results, ids, i),
                    results[i].1,
                ) && (results[i].0 is Some ==> resolved_id(results, ids, i) == results[i].0) && (i
                    < ids.len() ==> resolved_id(results, ids, i) is Some)
        }),
{
}

} // verus!
