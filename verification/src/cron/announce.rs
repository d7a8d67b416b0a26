//! Which outputs are announced: the quiet forms of a `NO_REPLY` answer are not.

use crate::text;
use vstd::prelude::*;
use vstd::slice::slice_subrange;
use vstd::string::*;

verus! {

/// The position of the first `]`.
pub open spec fn closing_bracket(s: Seq<char>) -> Option<int>
    decreases s.len(),
{
    if s.len() == 0 {
        None
    } else if s[0] == ']' {
        Some(0)
    } else {
        match closing_bracket(s.drop_first()) {
            Some(i) => Some(i + 1),
            None => None,
        }
    }
}

/// Whether an output says that there is nothing to report: `NO_REPLY` alone,
/// `NO_REPLY:` with anything, or `NO_REPLY[INFO]` with anything, in any case and
/// with white space around it. Any other kind, and one without a closing
/// bracket, has something to say.
pub open spec fn is_quiet(output: Seq<char>) -> bool {
    let lower = text::ascii_lower(text::trimmed(output));
    let rest = lower.skip("no_reply["@.len() as int);
    ||| lower == "no_reply"@
    ||| "no_reply:"@.is_prefix_of(lower)
    ||| ("no_reply["@.is_prefix_of(lower) && (closing_bracket(rest) matches Some(i)
        && text::trimmed(rest.take(i)) == "info"@))
}

/// The position of the first `]`.
fn find_bracket(s: &[char]) -> (r: Option<usize>)
    ensures
        match r {
            Some(i) => closing_bracket(s@) == Some(i as int) && i < s@.len(),
            None => closing_bracket(s@) is None,
        },
{
    let mut i: usize = 0;
    assert(s@.skip(0) == s@);
    while i < s.len()
        invariant
            i <= s@.len(),
            match closing_bracket(s@.skip(i as int)) {
                Some(k) => closing_bracket(s@) == Some(k + i),
                None => closing_bracket(s@) is None,
            },
        decreases s@.len() - i,
    {
        assert(s@.skip(i as int).drop_first() == s@.skip(i + 1));
        assert(s@.skip(i as int)[0] == s@[i as int]);
        if s[i] == ']' {
            return Some(i);
        }
        i += 1;
    }
    None
}

/// Whether an output says that there is nothing to report.
#[must_use]
pub fn is_no_reply_sentinel(output: &str) -> (r: bool)
    ensures
        r == is_quiet(output@),
{
    let all: Vec<char> = text::chars_of(output);
    let lower: Vec<char> = text::to_ascii_lower(text::trim(all.as_slice()));
    if text::same_chars(lower.as_slice(), "no_reply") {
        return true;
    }
    if text::starts_with(lower.as_slice(), "no_reply:") {
        return true;
    }
    match text::strip_prefix(lower.as_slice(), "no_reply[") {
        Some(rest) => match find_bracket(rest) {
            Some(i) => {
                let kind: &[char] = slice_subrange(rest, 0, i);
                assert(kind@ =~= rest@.take(i as int));
                text::same_chars(text::trim(kind), "info")
            },
            None => false,
        },
        None => false,
    }
}

/// What happens to an output that would be announced.
#[derive(Clone, Copy, Debug, PartialEq, Eq, Structural)]
pub enum AnnounceDecision {
    /// Send the output to the configured channel.
    Deliver,
    /// Suppress delivery: the output is a quiet `NO_REPLY` sentinel.
    SuppressNoReply,
}

impl AnnounceDecision {
    /// Whether the announcement is sent.
    #[must_use]
    pub fn should_deliver(self) -> (r: bool)
        ensures
            r == (self == AnnounceDecision::Deliver),
    {
        match self {
            AnnounceDecision::Deliver => true,
            AnnounceDecision::SuppressNoReply => false,
        }
    }
}

/// Decides whether an output is announced. Only the quiet forms are suppressed;
/// failures, refusals and all real content are delivered.
#[must_use]
pub fn announce_delivery_decision(output: &str) -> (d: AnnounceDecision)
    ensures
        d == (if is_quiet(output@) {
            AnnounceDecision::SuppressNoReply
        } else {
            AnnounceDecision::Deliver
        }),
{
    if is_no_reply_sentinel(output) {
        AnnounceDecision::SuppressNoReply
    } else {
        AnnounceDecision::Deliver
    }
}

/// Who asked for a run.
#[derive(Clone, Copy, Debug, PartialEq, Eq, Structural)]
pub enum CronDeliveryContext {
    Scheduled,
    ToolManual,
    GatewayManual,
    RpcManual,
}

impl CronDeliveryContext {
    /// What is logged of a delivery that failed.
    pub open spec fn failure_text(self, best_effort: bool) -> Seq<char> {
        match (self, best_effort) {
            (CronDeliveryContext::Scheduled, true) => "Cron delivery failed (best_effort)"@,
            (CronDeliveryContext::Scheduled, false) => "Cron delivery failed"@,
            (CronDeliveryContext::ToolManual, true) => "cron_run delivery failed (best_effort)"@,
            (CronDeliveryContext::ToolManual, false) => "cron_run delivery failed"@,
            (CronDeliveryContext::GatewayManual, true) =>
                "manual cron trigger delivery failed (best_effort)"@,
            (CronDeliveryContext::GatewayManual, false) => "manual cron trigger delivery failed"@,
            (CronDeliveryContext::RpcManual, true) =>
                "RPC cron trigger delivery failed (best_effort)"@,
            (CronDeliveryContext::RpcManual, false) => "RPC cron trigger delivery failed"@,
        }
    }

    /// What is logged of a delivery that failed.
    pub fn failure_message(self, best_effort: bool) -> (m: &'static str)
        ensures
            m@ == self.failure_text(best_effort),
    {
        match (self, best_effort) {
            (CronDeliveryContext::Scheduled, true) => "Cron delivery failed (best_effort)",
            (CronDeliveryContext::Scheduled, false) => "Cron delivery failed",
            (CronDeliveryContext::ToolManual, true) => "cron_run delivery failed (best_effort)",
            (CronDeliveryContext::ToolManual, false) => "cron_run delivery failed",
            (CronDeliveryContext::GatewayManual, true) =>
                "manual cron trigger delivery failed (best_effort)",
            (CronDeliveryContext::GatewayManual, false) => "manual cron trigger delivery failed",
            (CronDeliveryContext::RpcManual, true) =>
                "RPC cron trigger delivery failed (best_effort)",
            (CronDeliveryContext::RpcManual, false) => "RPC cron trigger delivery failed",
        }
    }
}

/// A kinded answer is quiet only if its kind is the informational one: whatever
/// stands between the brackets is compared as a whole.
pub proof fn law_other_kinds_are_delivered(output: Seq<char>, i: int)
    requires
        "no_reply["@.is_prefix_of(text::ascii_lower(text::trimmed(output))),
        closing_bracket(
            text::ascii_lower(text::trimmed(output)).skip("no_reply["@.len() as int),
        ) == Some(i),
        text::trimmed(
            text::ascii_lower(text::trimmed(output)).skip("no_reply["@.len() as int).take(i),
        ) != "info"@,
    ensures
        !is_quiet(output),
{
    reveal_strlit("no_reply");
    reveal_strlit("no_reply:");
    reveal_strlit("no_reply[");
    let lower = text::ascii_lower(text::trimmed(output));
    assert(lower[8] == '[') by {
        assert("no_reply["@[8] == '[');
        assert(lower.subrange(0, 9)[8] == lower[8]);
    }
    if "no_reply:"@.is_prefix_of(lower) {
        assert("no_reply:"@[8] == ':');
        assert(lower.subrange(0, 9)[8] == lower[8]);
    }
}

} // verus!
