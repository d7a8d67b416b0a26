//! Delivery of a job's output, and what a run amounts to once it is delivered.

use crate::cron::announce;
use crate::cron::job::{DeliveryConfig, DeliveryView};
use crate::effect::{DeliveryFailure, DeliverySummary, EffectOutcome};
use crate::text;
use crate::turn::tool;
use vstd::prelude::*;
use vstd::string::*;

verus! {

/// A delivery that failed: what is shown of it, and how far it got where the
/// channel says so.
#[derive(Clone, Debug)]
pub struct DeliveryError {
    pub message: String,
    pub failure: Option<DeliveryFailure>,
}

/// The conversation that an announcement answers.
pub struct Route {
    pub channel: String,
    pub recipient: String,
    pub sender: String,
    pub thread: Option<String>,
    pub reply_to: String,
}

/// What is handed to the channel.
pub struct Announcement {
    pub channel: String,
    pub target: String,
    pub thread_id: Option<String>,
    pub route: Option<Route>,
}

/// What a delivery configuration asks for.
pub enum DeliveryPlan {
    /// Nothing is announced.
    Nothing,
    /// An announcement is asked for, but not where to.
    Refused(DeliveryError),
    /// An announcement is sent.
    Send(Announcement),
}

/// What came of handing an announcement to the channel.
pub enum SendEnd {
    /// Nothing stands ready to deliver it.
    NoHandler { shown: String },
    /// The channel took it, and may have left a summary.
    Taken { summary: Option<DeliverySummary> },
    /// The channel failed.
    Failed { error: DeliveryError },
}

/// What a run amounts to once its output is delivered.
#[derive(Clone, Debug)]
pub struct CronDeliveryOutcome {
    /// What is known of the notification; `None` where none was to be sent.
    pub delivery_outcome: Option<EffectOutcome>,
    pub success: bool,
    pub status: String,
    pub output: String,
}

/// The model of a delivery that failed.
pub struct DeliveryErrorView {
    pub message: Seq<char>,
    pub failure: Option<DeliveryFailure>,
}

/// The model of a conversation.
pub struct RouteView {
    pub channel: Seq<char>,
    pub recipient: Seq<char>,
    pub sender: Seq<char>,
    pub thread: Option<Seq<char>>,
    pub reply_to: Seq<char>,
}

/// The model of a delivery plan.
pub enum PlanView {
    Nothing,
    Refused(DeliveryErrorView),
    Send {
        channel: Seq<char>,
        target: Seq<char>,
        thread_id: Option<Seq<char>>,
        route: Option<RouteView>,
    },
}

/// The model of what came of an announcement.
pub enum SendView {
    NoHandler { shown: Seq<char> },
    Taken { summary: Option<DeliverySummary> },
    Failed { error: DeliveryErrorView },
}

/// The model of a delivered run.
pub struct OutcomeView {
    pub delivery_outcome: Option<EffectOutcome>,
    pub success: bool,
    pub status: Seq<char>,
    pub output: Seq<char>,
}

impl View for DeliveryError {
    type V = DeliveryErrorView;

    open spec fn view(&self) -> DeliveryErrorView {
        DeliveryErrorView { message: self.message@, failure: self.failure }
    }
}

impl View for Route {
    type V = RouteView;

    open spec fn view(&self) -> RouteView {
        RouteView {
            channel: self.channel@,
            recipient: self.recipient@,
            sender: self.sender@,
            thread: tool::opt(self.thread),
            reply_to: self.reply_to@,
        }
    }
}

impl View for DeliveryPlan {
    type V = PlanView;

    open spec fn view(&self) -> PlanView {
        match *self {
            DeliveryPlan::Nothing => PlanView::Nothing,
            DeliveryPlan::Refused(e) => PlanView::Refused(e@),
            DeliveryPlan::Send(a) => PlanView::Send {
                channel: a.channel@,
                target: a.target@,
                thread_id: tool::opt(a.thread_id),
                route: match a.route {
                    Some(r) => Some(r@),
                    None => None,
                },
            },
        }
    }
}

impl View for SendEnd {
    type V = SendView;

    open spec fn view(&self) -> SendView {
        match *self {
            SendEnd::NoHandler { shown } => SendView::NoHandler { shown: shown@ },
            SendEnd::Taken { summary } => SendView::Taken { summary },
            SendEnd::Failed { error } => SendView::Failed { error: error@ },
        }
    }
}

impl View for CronDeliveryOutcome {
    type V = OutcomeView;

    open spec fn view(&self) -> OutcomeView {
        OutcomeView {
            delivery_outcome: self.delivery_outcome,
            success: self.success,
            status: self.status@,
            output: self.output@,
        }
    }
}

/// A notification of which nothing was attempted.
pub open spec fn not_started() -> DeliveryFailure {
    DeliveryFailure {
        outcome: EffectOutcome::NotStarted,
        chunk_index: 0,
        total_chunks: 1,
        confirmed_chunks: 0,
    }
}

/// A notification of which nothing was attempted.
pub fn notification_not_started() -> (f: DeliveryFailure)
    ensures
        f == not_started(),
{
    DeliveryFailure {
        outcome: EffectOutcome::NotStarted,
        chunk_index: 0,
        total_chunks: 1,
        confirmed_chunks: 0,
    }
}

/// What a delivery configuration asks for, of an output. Nothing is announced
/// outside announce mode, nor where the output says that there is nothing to
/// report. An announcement goes to the configured channel and target; it
/// carries a conversation where it answers a message.
pub open spec fn plan(d: DeliveryView, output: Seq<char>) -> PlanView {
    if text::ascii_lower(d.mode) != "announce"@ || announce::is_quiet(output) {
        PlanView::Nothing
    } else {
        match (d.channel, d.to) {
            (None, _) => PlanView::Refused(
                DeliveryErrorView {
                    message: "delivery.channel is required for announce mode"@,
                    failure: Some(not_started()),
                },
            ),
            (Some(_), None) => PlanView::Refused(
                DeliveryErrorView {
                    message: "delivery.to is required for announce mode"@,
                    failure: Some(not_started()),
                },
            ),
            (Some(channel), Some(target)) => PlanView::Send {
                channel,
                target,
                thread_id: d.thread_id,
                route: match d.reply_to {
                    Some(reply_to) => Some(
                        RouteView {
                            channel,
                            recipient: target,
                            sender: ""@,
                            thread: d.thread_id,
                            reply_to,
                        },
                    ),
                    None => None,
                },
            },
        }
    }
}

/// What a delivery configuration asks for, of an output.
pub fn plan_delivery(delivery: &DeliveryConfig, output: &str) -> (p: DeliveryPlan)
    ensures
        p@ == plan(delivery@, output@),
{
    let mode: Vec<char> = text::chars_of(delivery.mode.as_str());
    let lower: Vec<char> = text::to_ascii_lower(mode.as_slice());
    if !text::same_chars(lower.as_slice(), "announce") {
        return DeliveryPlan::Nothing;
    }
    if !announce::announce_delivery_decision(output).should_deliver() {
        return DeliveryPlan::Nothing;
    }
    let channel: &String = match &delivery.channel {
        Some(c) => c,
        None => {
            return DeliveryPlan::Refused(
                DeliveryError {
                    message: "delivery.channel is required for announce mode".to_owned(),
                    failure: Some(notification_not_started()),
                },
            );
        },
    };
    let target: &String = match &delivery.to {
        Some(t) => t,
        None => {
            return DeliveryPlan::Refused(
                DeliveryError {
                    message: "delivery.to is required for announce mode".to_owned(),
                    failure: Some(notification_not_started()),
                },
            );
        },
    };
    let route: Option<Route> = match &delivery.reply_to {
        Some(reply_to) => Some(
            Route {
                channel: channel.as_str().to_owned(),
                recipient: target.as_str().to_owned(),
                sender: "".to_owned(),
                thread: tool::copy_opt(&delivery.thread_id),
                reply_to: reply_to.as_str().to_owned(),
            },
        ),
        None => None,
    };
    DeliveryPlan::Send(
        Announcement {
            channel: channel.as_str().to_owned(),
            target: target.as_str().to_owned(),
            thread_id: tool::copy_opt(&delivery.thread_id),
            route,
        },
    )
}

/// What a channel's summary is evidence of. Only a summary in which every one of
/// at least one chunk is confirmed confirms the notification.
pub open spec fn evidence(summary: Option<DeliverySummary>) -> EffectOutcome {
    match summary {
        Some(s) => if s.outcome != EffectOutcome::Confirmed {
            s.outcome
        } else if s.total_chunks > 0 && s.confirmed_chunks == s.total_chunks {
            EffectOutcome::Confirmed
        } else if 0 < s.confirmed_chunks < s.total_chunks {
            EffectOutcome::PartiallyApplied
        } else {
            EffectOutcome::PossiblyApplied
        },
        None => EffectOutcome::PossiblyApplied,
    }
}

/// What a channel's summary is evidence of.
pub fn notification_evidence(summary: Option<DeliverySummary>) -> (r: EffectOutcome)
    ensures
        r == evidence(summary),
{
    match summary {
        Some(s) => {
            if s.outcome == EffectOutcome::Confirmed && s.total_chunks > 0 && s.confirmed_chunks
                == s.total_chunks {
                EffectOutcome::Confirmed
            } else if s.outcome != EffectOutcome::Confirmed {
                s.outcome
            } else if s.confirmed_chunks > 0 && s.confirmed_chunks < s.total_chunks {
                EffectOutcome::PartiallyApplied
            } else {
                EffectOutcome::PossiblyApplied
            }
        },
        None => EffectOutcome::PossiblyApplied,
    }
}

/// What an announcement came to: the summary that the channel left, if it left
/// one, or the failure. Without a handler nothing was attempted.
pub open spec fn announced(sent: SendView) -> Result<Option<DeliverySummary>, DeliveryErrorView> {
    match sent {
        SendView::NoHandler { shown } => Err(
            DeliveryErrorView { message: shown, failure: Some(not_started()) },
        ),
        SendView::Taken { summary } => Ok(summary),
        SendView::Failed { error } => Err(error),
    }
}

/// What an announcement came to.
pub fn deliver_announcement(sent: SendEnd) -> (r: Result<Option<DeliverySummary>, DeliveryError>)
    ensures
        match r {
            Ok(s) => announced(sent@) == Ok::<_, DeliveryErrorView>(s),
            Err(e) => announced(sent@) == Err::<Option<DeliverySummary>, _>(e@),
        },
{
    match sent {
        SendEnd::NoHandler { shown } => Err(
            DeliveryError { message: shown, failure: Some(notification_not_started()) },
        ),
        SendEnd::Taken { summary } => Ok(summary),
        SendEnd::Failed { error } => Err(error),
    }
}

/// How the delivery of an output ended: with what is known of the notification,
/// if one was to be sent, or with the failure.
pub open spec fn delivered(d: DeliveryView, output: Seq<char>, sent: SendView) -> Result<
    Option<EffectOutcome>,
    DeliveryErrorView,
> {
    match plan(d, output) {
        PlanView::Nothing => Ok(None),
        PlanView::Refused(e) => Err(e),
        PlanView::Send { .. } => match announced(sent) {
            Ok(summary) => Ok(Some(evidence(summary))),
            Err(e) => Err(e),
        },
    }
}

/// How the delivery of an output ended, given what came of the announcement
/// where the plan sends one. The reply is not looked at where it sends none.
pub fn deliver_if_configured(delivery: &DeliveryConfig, output: &str, sent: SendEnd) -> (r: Result<
    Option<EffectOutcome>,
    DeliveryError,
>)
    ensures
        match r {
            Ok(o) => delivered(delivery@, output@, sent@) == Ok::<_, DeliveryErrorView>(o),
            Err(e) => delivered(delivery@, output@, sent@) == Err::<
                Option<EffectOutcome>,
                _,
            >(e@),
        },
{
    match plan_delivery(delivery, output) {
        DeliveryPlan::Nothing => Ok(None),
        DeliveryPlan::Refused(e) => Err(e),
        DeliveryPlan::Send(_) => match deliver_announcement(sent) {
            Ok(summary) => Ok(Some(notification_evidence(summary))),
            Err(e) => Err(e),
        },
    }
}

/// What a failed delivery is evidence of: what the channel says, where it says
/// anything, but a failure after confirmed chunks is a partial delivery; a
/// delivery that may have gone out otherwise.
pub open spec fn failure_evidence(failure: Option<DeliveryFailure>) -> EffectOutcome {
    match failure {
        None => EffectOutcome::PossiblyApplied,
        Some(f) => if f.confirmed_chunks > 0 && f.outcome == EffectOutcome::ConfirmedFailed {
            EffectOutcome::PartiallyApplied
        } else {
            f.outcome
        },
    }
}

/// What a failed delivery is evidence of.
pub fn failed_notification(failure: Option<DeliveryFailure>) -> (r: EffectOutcome)
    ensures
        r == failure_evidence(failure),
{
    match failure {
        None => EffectOutcome::PossiblyApplied,
        Some(f) => {
            if f.confirmed_chunks > 0 && f.outcome == EffectOutcome::ConfirmedFailed {
                EffectOutcome::PartiallyApplied
            } else {
                f.outcome
            }
        },
    }
}

/// What a run amounts to. A failed delivery fails the run, unless delivery is
/// on a best-effort basis: then a successful run is degraded and a failed one
/// stays as it is. The failure is told in the output.
pub open spec fn classified(
    success: bool,
    output: Seq<char>,
    best_effort: bool,
    delivery: Result<Option<EffectOutcome>, DeliveryErrorView>,
) -> OutcomeView {
    match delivery {
        Ok(outcome) => OutcomeView {
            delivery_outcome: outcome,
            success,
            status: if success {
                "ok"@
            } else {
                "error"@
            },
            output,
        },
        Err(e) => OutcomeView {
            delivery_outcome: Some(failure_evidence(e.failure)),
            success: success && best_effort,
            status: if success && best_effort {
                "degraded"@
            } else {
                "error"@
            },
            output: if text::trimmed(output).len() == 0 {
                "delivery failed: "@ + e.message
            } else {
                output + "\n\ndelivery failed: "@ + e.message
            },
        },
    }
}

/// What a run amounts to, given what came of the announcement where the
/// configuration sends one.
pub fn deliver_and_classify_run_result(
    delivery: &DeliveryConfig,
    success: bool,
    output: String,
    sent: SendEnd,
) -> (r: CronDeliveryOutcome)
    ensures
        r@ == classified(
            success,
            output@,
            delivery.best_effort,
            delivered(delivery@, output@, sent@),
        ),
{
    match deliver_if_configured(delivery, output.as_str(), sent) {
        Ok(delivery_outcome) => {
            let status: String = if success {
                "ok".to_owned()
            } else {
                "error".to_owned()
            };
            CronDeliveryOutcome { delivery_outcome, success, status, output }
        },
        Err(e) => {
            let delivery_outcome: Option<EffectOutcome> = Some(failed_notification(e.failure));
            let status: String = if success && delivery.best_effort {
                "degraded".to_owned()
            } else {
                "error".to_owned()
            };
            let all: Vec<char> = text::chars_of(output.as_str());
            let told: String = if text::trim(all.as_slice()).len() == 0 {
                let mut s: String = "delivery failed: ".to_owned();
                s.append(e.message.as_str());
                s
            } else {
                let mut s: String = output;
                s.append("\n\ndelivery failed: ");
                s.append(e.message.as_str());
                s
            };
            CronDeliveryOutcome {
                delivery_outcome,
                success: success && delivery.best_effort,
                status,
                output: told,
            }
        },
    }
}

/// What the ledger records of a notification.
pub open spec fn delivery_state(outcome: Option<EffectOutcome>) -> Seq<char> {
    match outcome {
        None => "not_started"@,
        Some(o) => outcome_name(o),
    }
}

/// The name of an outcome in the ledger.
pub open spec fn outcome_name(o: EffectOutcome) -> Seq<char> {
    match o {
        EffectOutcome::NotStarted => "not_started"@,
        EffectOutcome::Confirmed => "confirmed"@,
        EffectOutcome::ConfirmedFailed => "confirmed_failed"@,
        EffectOutcome::PartiallyApplied => "partially_applied"@,
        EffectOutcome::PossiblyApplied => "possibly_applied"@,
        EffectOutcome::ReconciliationRequired => "reconciliation_required"@,
    }
}

/// What the ledger records of a notification.
pub fn occurrence_delivery_state(outcome: Option<EffectOutcome>) -> (s: &'static str)
    ensures
        s@ == delivery_state(outcome),
{
    match outcome {
        None => "not_started",
        Some(EffectOutcome::NotStarted) => "not_started",
        Some(EffectOutcome::Confirmed) => "confirmed",
        Some(EffectOutcome::ConfirmedFailed) => "confirmed_failed",
        Some(EffectOutcome::PartiallyApplied) => "partially_applied",
        Some(EffectOutcome::PossiblyApplied) => "possibly_applied",
        Some(EffectOutcome::ReconciliationRequired) => "reconciliation_required",
    }
}

/// A notification is confirmed only by a summary that confirms all of at least
/// one chunk, or by a channel that calls its own failure confirmed: never by the
/// success of the run, nor by delivery on a best-effort basis.
pub proof fn law_confirmation_needs_a_receipt(
    success: bool,
    d: DeliveryView,
    output: Seq<char>,
    sent: SendView,
)
    requires
        classified(success, output, d.best_effort, delivered(d, output, sent)).delivery_outcome
            == Some(EffectOutcome::Confirmed),
    ensures
        plan(d, output) is Send,
        match sent {
            SendView::NoHandler { .. } => false,
            SendView::Taken { summary } => summary matches Some(s) && s.outcome
                == EffectOutcome::Confirmed && s.total_chunks > 0 && s.confirmed_chunks
                == s.total_chunks,
            SendView::Failed { error } => error.failure matches Some(f) && f.outcome
                == EffectOutcome::Confirmed,
        },
{
}

/// A delivery never makes a failed run successful, and the run's own output stays
/// at the front of what is reported, unless it was blank.
pub proof fn law_delivery_keeps_the_run(
    success: bool,
    output: Seq<char>,
    best_effort: bool,
    delivery: Result<Option<EffectOutcome>, DeliveryErrorView>,
)
    ensures
        classified(success, output, best_effort, delivery).success ==> success,
        text::trimmed(output).len() > 0 ==> output.is_prefix_of(
            classified(success, output, best_effort, delivery).output,
        ),
{
    let told = classified(success, output, best_effort, delivery).output;
    if text::trimmed(output).len() > 0 {
        assert(output =~= told.subrange(0, output.len() as int));
    }
}

} // verus!
