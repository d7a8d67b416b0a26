//! Transient ownership of every terminal tool error in a dispatched batch.

use crate::turn::error;
use crate::turn::error::{Cause, CauseKind, Layer, TurnError};
use vstd::multiset::Multiset;
use vstd::prelude::*;
use vstd::seq_lib::*;

verus! {

/// The failures of a batch beside its primary one, by the position of their
/// calls in the batch.
pub struct RetainedToolFailures {
    pub primary_call_index: usize,
    pub siblings: Vec<(usize, TurnError)>,
    /// A bounded display form of the primary failure.
    pub summary: String,
}

/// The failure that stands for its batch.
pub struct PrimaryFailure {
    pub call_index: usize,
    pub error: TurnError,
    /// A bounded display form, not a replacement for the error.
    pub summary: String,
}

/// The failures of a batch as they come in.
pub struct TerminalFailures {
    pub primary: Option<PrimaryFailure>,
    pub siblings: Vec<(usize, TurnError)>,
}

/// Whether an error is a failed delivery.
pub open spec fn is_delivery(e: TurnError) -> bool {
    error::downcasts(e.layers@, CauseKind::Delivery)
}

/// Whether an error is a cancellation.
pub open spec fn is_cancellation(e: TurnError) -> bool {
    error::is_cancelled(e.layers@)
}

/// Whether `new` takes the place of `previous`: a delivery failure that of
/// anything else, and anything that is no cancellation that of a cancellation.
pub open spec fn supersedes(new: TurnError, previous: TurnError) -> bool {
    ||| is_cancellation(previous) && !is_cancellation(new)
    ||| is_delivery(new) && !is_delivery(previous)
}

/// The failures of a batch: the primary one's position and error, and the others in
/// the order in which they were set aside.
pub struct FailuresView {
    pub primary: Option<(usize, TurnError)>,
    pub siblings: Seq<(usize, TurnError)>,
}

/// The model of what is kept of a batch.
pub struct TerminalView {
    pub failures: FailuresView,
    /// The display form of the primary failure.
    pub summary: Option<Seq<char>>,
}

impl View for TerminalFailures {
    type V = TerminalView;

    open spec fn view(&self) -> TerminalView {
        TerminalView {
            failures: FailuresView {
                primary: match self.primary {
                    Some(p) => Some((p.call_index, p.error)),
                    None => None,
                },
                siblings: self.siblings@,
            },
            summary: match self.primary {
                Some(p) => Some(p.summary@),
                None => None,
            },
        }
    }
}

/// Whether a new failure becomes the primary one.
pub open spec fn becomes_primary(before: FailuresView, e: TurnError) -> bool {
    match before.primary {
        None => true,
        Some(previous) => supersedes(e, previous.1),
    }
}

/// `before` with one more failure.
pub open spec fn pushed(before: FailuresView, call_index: usize, e: TurnError) -> FailuresView {
    match before.primary {
        None => FailuresView { primary: Some((call_index, e)), siblings: before.siblings },
        Some(previous) => if supersedes(e, previous.1) {
            FailuresView {
                primary: Some((call_index, e)),
                siblings: before.siblings.push(previous),
            }
        } else {
            FailuresView { primary: before.primary, siblings: before.siblings.push((call_index, e)) }
        },
    }
}

/// Whether `after` holds the elements of `before` in the order of their
/// positions, those with the same position in their old order.
pub open spec fn is_stable_sort(
    before: Seq<(usize, TurnError)>,
    after: Seq<(usize, TurnError)>,
) -> bool {
    &&& after.to_multiset() == before.to_multiset()
    &&& forall|i: int, j: int| 0 <= i <= j < after.len() ==> (#[trigger] after[i]).0 <= (
    #[trigger] after[j]).0
    &&& forall|k: usize| #[trigger] at_position(after, k) == at_position(before, k)
}

/// The failures at position `k`, in their order.
pub open spec fn at_position(s: Seq<(usize, TurnError)>, k: usize) -> Seq<(usize, TurnError)> {
    s.filter(|x: (usize, TurnError)| x.0 == k)
}

impl TerminalFailures {
    /// No failures.
    pub fn new() -> (f: TerminalFailures)
        ensures
            f@ == (TerminalView {
                failures: FailuresView { primary: None, siblings: Seq::empty() },
                summary: None,
            }),
    {
        TerminalFailures { primary: None, siblings: Vec::new() }
    }

    /// Takes in the failure of the call at `call_index`. `summary` is the bounded
    /// display form of the failure.
    pub fn push(&mut self, call_index: usize, error: TurnError, summary: String)
        ensures
            final(self)@ == (TerminalView {
                failures: pushed(old(self)@.failures, call_index, error),
                summary: if becomes_primary(old(self)@.failures, error) {
                    Some(summary@)
                } else {
                    old(self)@.summary
                },
            }),
    {
        let replace: bool = match &self.primary {
            None => true,
            Some(previous) => (error::is_tool_loop_cancelled(&previous.error)
                && !error::is_tool_loop_cancelled(&error)) || (error.is(CauseKind::Delivery)
                && !previous.error.is(CauseKind::Delivery)),
        };
        if !replace {
            self.siblings.push((call_index, error));
            return ;
        }
        let previous: Option<PrimaryFailure> = self.primary.take();
        self.primary = Some(PrimaryFailure { call_index, error, summary });
        if let Some(p) = previous {
            self.siblings.push((p.call_index, p.error));
        }
    }

    /// The error of the batch: none without a failure, the primary failure where
    /// it is the only one, else the primary failure with the others as context.
    pub fn into_error(self) -> (r: Option<TurnError>)
        ensures
            match self@.failures.primary {
                None => r is None,
                Some((call_index, error)) => if self@.failures.siblings.len() == 0 {
                    r == Some(error)
                } else {
                    &&& r matches Some(e)
                    &&& e.layers@.len() > 0
                    &&& e.layers@.drop_first() == error.layers@
                    &&& e.layers@[0].context
                    &&& e.layers@[0].cause matches Cause::RetainedToolFailures(kept)
                    &&& kept.primary_call_index == call_index
                    &&& Some(kept.summary@) == self@.summary
                    &&& is_stable_sort(self@.failures.siblings, kept.siblings@)
                },
            },
    {
        let TerminalFailures { primary, siblings } = self;
        match primary {
            None => None,
            Some(primary) => {
                if siblings.len() == 0 {
                    return Some(primary.error);
                }
                let sorted: Vec<(usize, TurnError)> = sort_by_position(siblings);
                let kept = RetainedToolFailures {
                    primary_call_index: primary.call_index,
                    siblings: sorted,
                    summary: primary.summary,
                };
                let ghost below = primary.error.layers@;
                let e: TurnError = primary.error.context(Cause::RetainedToolFailures(kept));
                assert(e.layers@.drop_first() =~= below);
                Some(e)
            },
        }
    }
}

/// `items` in the order of their positions, those with the same position in
/// their old order.
fn sort_by_position(items: Vec<(usize, TurnError)>) -> (out: Vec<(usize, TurnError)>)
    ensures
        is_stable_sort(items@, out@),
{
    let mut rest: Vec<(usize, TurnError)> = items;
    let mut out: Vec<(usize, TurnError)> = Vec::new();
    proof {
        assert(items@.skip(items@.len() as int) =~= Seq::empty());
        assert(items@.take(items@.len() as int) == items@);
    }
    while rest.len() > 0
        invariant
            rest@.len() <= items@.len(),
            rest@ == items@.take(rest@.len() as int),
            is_stable_sort(items@.skip(rest@.len() as int), out@),
        decreases rest@.len(),
    {
        let ghost n = rest@.len() - 1;
        let last: Option<(usize, TurnError)> = rest.pop();
        if let Some(item) = last {
            let ghost tail = items@.skip(n + 1);
            assert(items@.skip(n) == seq![item] + tail);
            assert(rest@ == items@.take(n));
            let mut at: usize = 0;
            while at < out.len() && out[at].0 < item.0
                invariant
                    at <= out.len(),
                    forall|j: int| 0 <= j < at ==> (#[trigger] out@[j]).0 < item.0,
                decreases out.len() - at,
            {
                at += 1;
            }
            let ghost before = out@;
            out.insert(at, item);
            proof {
                lemma_insert_keeps_sort(tail, before, item, at as int);
            }
        }
    }
    assert(items@.skip(0) == items@);
    out
}

proof fn lemma_insert_keeps_sort(
    tail: Seq<(usize, TurnError)>,
    out: Seq<(usize, TurnError)>,
    item: (usize, TurnError),
    at: int,
)
    requires
        is_stable_sort(tail, out),
        0 <= at <= out.len(),
        forall|j: int| 0 <= j < at ==> (#[trigger] out[j]).0 < item.0,
        at < out.len() ==> item.0 <= out[at].0,
    ensures
        is_stable_sort(seq![item] + tail, out.insert(at, item)),
{
    let new = out.insert(at, item);
    let all = seq![item] + tail;
    let left = out.take(at);
    let right = out.skip(at);
    assert(out == left + right);
    assert(new == left + seq![item] + right);
    lemma_multiset_commutative(left + seq![item], right);
    lemma_multiset_commutative(left, seq![item]);
    lemma_multiset_commutative(seq![item], tail);
    lemma_multiset_commutative(left, right);
    assert(new.to_multiset() =~= all.to_multiset());
    assert forall|i: int, j: int| 0 <= i <= j < new.len() implies (#[trigger] new[i]).0 <= (
    #[trigger] new[j]).0 by {
        if i < at {
            assert(new[i] == out[i]);
        } else if i > at {
            assert(new[i] == out[i - 1]);
        }
        if j < at {
            assert(new[j] == out[j]);
        } else if j > at {
            assert(new[j] == out[j - 1]);
            assert(out[at].0 <= out[j - 1].0);
        }
    }
    assert forall|k: usize| #[trigger] at_position(new, k) == at_position(all, k) by {
        let p = |x: (usize, TurnError)| x.0 == k;
        lemma_filter_concat(left + seq![item], right, p);
        lemma_filter_concat(left, seq![item], p);
        lemma_filter_concat(left, right, p);
        lemma_filter_concat(seq![item], tail, p);
        assert(at_position(out, k) == at_position(tail, k));
        if item.0 == k {
            lemma_filter_none(left, p);
            assert(left.filter(p) =~= Seq::<(usize, TurnError)>::empty());
        } else {
            lemma_filter_none(seq![item], p);
        }
    }
}

proof fn lemma_filter_concat(
    a: Seq<(usize, TurnError)>,
    b: Seq<(usize, TurnError)>,
    p: spec_fn((usize, TurnError)) -> bool,
)
    ensures
        (a + b).filter(p) == a.filter(p) + b.filter(p),
{
    Seq::filter_distributes_over_add(a, b, p);
}

proof fn lemma_filter_none(
    s: Seq<(usize, TurnError)>,
    p: spec_fn((usize, TurnError)) -> bool,
)
    requires
        forall|i: int| 0 <= i < s.len() ==> !p(#[trigger] s[i]),
    ensures
        s.filter(p) == Seq::<(usize, TurnError)>::empty(),
    decreases s.len(),
{
    reveal(Seq::filter);
    if s.len() > 0 {
        assert(!p(s[s.len() - 1]));
        assert forall|i: int| 0 <= i < s.drop_last().len() implies !p(
            #[trigger] s.drop_last()[i],
        ) by {
            assert(s.drop_last()[i] == s[i]);
        }
        lemma_filter_none(s.drop_last(), p);
    }
}

/// What a batch holds after the failures `s` have come in one after another.
pub open spec fn after_pushes(s: Seq<(usize, TurnError)>) -> FailuresView
    decreases s.len(),
{
    if s.len() == 0 {
        FailuresView { primary: None, siblings: Seq::empty() }
    } else {
        pushed(after_pushes(s.drop_last()), s.last().0, s.last().1)
    }
}

/// All failures that a batch holds.
pub open spec fn all_failures(v: FailuresView) -> Multiset<(usize, TurnError)> {
    match v.primary {
        Some(p) => v.siblings.to_multiset().insert(p),
        None => v.siblings.to_multiset(),
    }
}

/// No failure of a batch is lost: whatever came in is held, as often as it came
/// in, and nothing else.
pub proof fn law_no_failure_is_lost(s: Seq<(usize, TurnError)>)
    ensures
        all_failures(after_pushes(s)) == s.to_multiset(),
        after_pushes(s).primary is None <==> s.len() == 0,
        after_pushes(s).primary is None ==> after_pushes(s).siblings.len() == 0,
    decreases s.len(),
{
    broadcast use group_to_multiset_ensures;
    if s.len() == 0 {
        assert(s.to_multiset() =~= Multiset::empty());
        assert(after_pushes(s).siblings.to_multiset() =~= Multiset::empty());
    } else {
        let init = s.drop_last();
        law_no_failure_is_lost(init);
        let before = after_pushes(init);
        let item = s.last();
        assert(s == init.push(item));
        assert(s.to_multiset() =~= init.to_multiset().insert(item));
        match before.primary {
            None => {
                assert(all_failures(after_pushes(s)) =~= init.to_multiset().insert(item));
            },
            Some(previous) => {
                to_multiset_build(before.siblings, previous);
                to_multiset_build(before.siblings, item);
                assert(all_failures(after_pushes(s)) =~= init.to_multiset().insert(item));
            },
        }
    }
}

/// The failed deliveries.
pub open spec fn deliveries() -> spec_fn(TurnError) -> bool {
    |e: TurnError| is_delivery(e)
}

/// The failures that are no cancellation.
pub open spec fn uncancelled() -> spec_fn(TurnError) -> bool {
    |e: TurnError| !is_cancellation(e)
}

/// Whether the element at `i` is the first of `s` that `p` holds of.
pub open spec fn is_first(
    s: Seq<(usize, TurnError)>,
    i: int,
    p: spec_fn(TurnError) -> bool,
) -> bool {
    &&& 0 <= i < s.len()
    &&& p(s[i].1)
    &&& forall|j: int| 0 <= j < i ==> !p((#[trigger] s[j]).1)
}

/// Whether `p` holds of an element of `s`.
pub open spec fn some_failure(
    s: Seq<(usize, TurnError)>,
    p: spec_fn(TurnError) -> bool,
) -> bool {
    exists|i: int| 0 <= i < s.len() && p((#[trigger] s[i]).1)
}

proof fn lemma_first_extends(
    s: Seq<(usize, TurnError)>,
    i: int,
    p: spec_fn(TurnError) -> bool,
)
    requires
        s.len() > 0,
        is_first(s.drop_last(), i, p),
    ensures
        is_first(s, i, p),
        s[i] == s.drop_last()[i],
{
    let init = s.drop_last();
    assert forall|j: int| 0 <= j < i implies !p((#[trigger] s[j]).1) by {
        assert(init[j] == s[j]);
    }
}

proof fn lemma_only_last(s: Seq<(usize, TurnError)>, p: spec_fn(TurnError) -> bool)
    requires
        s.len() > 0,
        !some_failure(s.drop_last(), p),
    ensures
        some_failure(s, p) <==> p(s.last().1),
        p(s.last().1) ==> is_first(s, s.len() - 1, p),
{
    let init = s.drop_last();
    assert forall|j: int| 0 <= j < s.len() - 1 implies !p((#[trigger] s[j]).1) by {
        assert(init[j] == s[j]);
    }
    if p(s.last().1) {
        assert(p(s[s.len() - 1].1));
    }
}

/// The primary failure is the first failed delivery; without one, the first
/// failure that is no cancellation; without one, the first. This holds where no
/// failed delivery is at the same time a cancellation.
pub proof fn law_precedence(s: Seq<(usize, TurnError)>)
    requires
        forall|i: int|
            0 <= i < s.len() ==> !(is_delivery((#[trigger] s[i]).1) && is_cancellation(s[i].1)),
    ensures
        some_failure(s, deliveries()) ==> exists|i: int|
            #[trigger] is_first(s, i, deliveries()) && after_pushes(s).primary
                == Some(s[i]),
        (!some_failure(s, deliveries()) && some_failure(s, uncancelled())) ==> exists|i: int|
            #[trigger] is_first(s, i, uncancelled()) && after_pushes(
                s,
            ).primary == Some(s[i]),
        (s.len() > 0 && !some_failure(s, deliveries()) && !some_failure(s, uncancelled()))
            ==> after_pushes(s).primary == Some(s[0]),
    decreases s.len(),
{
    let d = deliveries();
    let o = uncancelled();
    if s.len() > 0 {
        let init = s.drop_last();
        let n = s.len() - 1;
        assert forall|i: int| 0 <= i < init.len() implies !(is_delivery((#[trigger] init[i]).1)
            && is_cancellation(init[i].1)) by {
            assert(init[i] == s[i]);
        }
        law_precedence(init);
        law_no_failure_is_lost(init);
        assert(forall|i: int| 0 <= i < n ==> #[trigger] init[i] == s[i]);
        if some_failure(init, d) {
            let i = choose|i: int|
                #[trigger] is_first(init, i, d) && after_pushes(init).primary == Some(init[i]);
            lemma_first_extends(s, i, d);
        } else if some_failure(init, o) {
            let i = choose|i: int|
                #[trigger] is_first(init, i, o) && after_pushes(init).primary == Some(init[i]);
            lemma_first_extends(s, i, o);
            assert(!d(init[i].1));
            lemma_only_last(s, d);
        } else {
            lemma_only_last(s, d);
            lemma_only_last(s, o);
            if n > 0 {
                assert(init[0] == s[0]);
                assert(!o(init[0].1));
                assert(!d(init[0].1));
            }
        }
    }
}

/// The primary failure keeps its type under the failures that are kept with it:
/// whatever it could be taken for, the error of the batch can be taken for.
pub proof fn law_primary_failure_keeps_its_type(
    kept: RetainedToolFailures,
    primary: Seq<Layer>,
    k: CauseKind,
)
    requires
        error::downcasts(primary, k),
    ensures
        error::downcasts(
            seq![Layer { cause: Cause::RetainedToolFailures(kept), context: true }] + primary,
            k,
        ),
{
    let all = seq![Layer { cause: Cause::RetainedToolFailures(kept), context: true }] + primary;
    let i = choose|i: int|
        0 <= i < primary.len() && (#[trigger] primary[i]).cause.kind() == k && forall|j: int|
            0 <= j < i ==> (#[trigger] primary[j]).context;
    assert(all[i + 1] == primary[i]);
    assert forall|j: int| 0 <= j < i + 1 implies (#[trigger] all[j]).context by {
        if j > 0 {
            assert(all[j] == primary[j - 1]);
        }
    }
}

} // verus!
