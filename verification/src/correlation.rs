//! Laws of reply correlation: over any history of requests, replies and
//! disconnects, every request that was registered ends exactly once.

use crate::plugin::{accepts, sends, Inbound, Outbound, ProcessView, SendError};
use crate::protocol::{MessageView, PayloadView};
use vstd::multiset::Multiset;
use vstd::prelude::*;

verus! {

/// Something that happens to the pending requests of a plugin.
pub enum Exchange<W> {
    /// The host registers a request for this waiter.
    Request { waiter: W },
    /// A reply with this id arrives.
    Reply { id: u64 },
    /// The plugin's output closes.
    Disconnect,
}

impl<W> ProcessView<W> {
    /// The state after one exchange.
    pub open spec fn step(self, exchange: Exchange<W>) -> Self {
        match exchange {
            Exchange::Request { waiter } => if self.can_issue() {
                self.issue(waiter)
            } else {
                self
            },
            Exchange::Reply { id } => self.resolve(id),
            Exchange::Disconnect => self.drain(),
        }
    }

    /// The ids that one exchange registers.
    pub open spec fn issued_by(self, exchange: Exchange<W>) -> Multiset<u64> {
        match exchange {
            Exchange::Request { .. } => if self.can_issue() {
                Multiset::singleton(self.next_request_id)
            } else {
                Multiset::empty()
            },
            _ => Multiset::empty(),
        }
    }

    /// The ids whose wait one exchange ends with the plugin's reply.
    pub open spec fn delivered_by(self, exchange: Exchange<W>) -> Multiset<u64> {
        match exchange {
            Exchange::Reply { id } => if self.is_pending(id) {
                Multiset::singleton(id)
            } else {
                Multiset::empty()
            },
            _ => Multiset::empty(),
        }
    }

    /// The ids whose wait one exchange ends with the notice of disconnect.
    pub open spec fn failed_by(self, exchange: Exchange<W>) -> Multiset<u64> {
        match exchange {
            Exchange::Disconnect => self.pending_ids().to_multiset(),
            _ => Multiset::empty(),
        }
    }

    /// The state after a history of exchanges, oldest first.
    pub open spec fn after(self, history: Seq<Exchange<W>>) -> Self
        decreases history.len(),
    {
        if history.len() == 0 {
            self
        } else {
            self.after(history.drop_last()).step(history.last())
        }
    }

    /// The ids that were registered over a history.
    pub open spec fn issued(self, history: Seq<Exchange<W>>) -> Multiset<u64>
        decreases history.len(),
    {
        if history.len() == 0 {
            Multiset::empty()
        } else {
            self.issued(history.drop_last()).add(
                self.after(history.drop_last()).issued_by(history.last()),
            )
        }
    }

    /// The ids whose wait ended with the plugin's reply over a history.
    pub open spec fn delivered(self, history: Seq<Exchange<W>>) -> Multiset<u64>
        decreases history.len(),
    {
        if history.len() == 0 {
            Multiset::empty()
        } else {
            self.delivered(history.drop_last()).add(
                self.after(history.drop_last()).delivered_by(history.last()),
            )
        }
    }

    /// The ids whose wait ended with the notice of disconnect over a history.
    pub open spec fn failed(self, history: Seq<Exchange<W>>) -> Multiset<u64>
        decreases history.len(),
    {
        if history.len() == 0 {
            Multiset::empty()
        } else {
            self.failed(history.drop_last()).add(
                self.after(history.drop_last()).failed_by(history.last()),
            )
        }
    }

    /// The ids that are pending.
    pub open spec fn waiting(self) -> Multiset<u64> {
        self.pending_ids().to_multiset()
    }
}

/// What the host does is an exchange of the history: making a request ready
/// is a request, taking in a reply is a reply, and ending every wait is a
/// disconnect. An event is no exchange: it changes nothing.
pub proof fn lemma_operations_are_exchanges<W>(
    before: ProcessView<W>,
    after: ProcessView<W>,
    payload: PayloadView,
    waiter: W,
    sent: Result<Outbound, SendError>,
    message: MessageView,
    inbound: Inbound<W>,
)
    ensures
        sends(before, payload, waiter, sent, after) ==> after == before.step(
            Exchange::Request { waiter },
        ),
        accepts(before, message, inbound, after) ==> after == match message {
            MessageView::Response { id, .. } => before.step(Exchange::Reply { id }),
            MessageView::Event { .. } => before,
        },
        before.drain() == before.step(Exchange::Disconnect),
{
}

/// In a well-formed state no id is pending twice, and every pending id is
/// below the next one.
proof fn lemma_waiting_once<W>(state: ProcessView<W>)
    requires
        state.well_formed(),
    ensures
        forall|id: u64| state.waiting().count(id) <= 1,
        forall|id: u64| state.waiting().count(id) > 0 ==> id < state.next_request_id,
        forall|id: u64| state.waiting().count(id) > 0 <==> state.is_pending(id),
{
    broadcast use vstd::seq_lib::group_to_multiset_ensures;

    let ids = state.pending_ids();
    assert forall|i: int, j: int| 0 <= i < ids.len() && 0 <= j < ids.len() && i != j implies ids[i]
        != ids[j] by {
        if i < j {
            assert(state.pending[i].0 < state.pending[j].0);
        } else {
            assert(state.pending[j].0 < state.pending[i].0);
        }
    }
    ids.lemma_multiset_has_no_duplicates();
    assert forall|id: u64| state.waiting().count(id) > 0 implies id < state.next_request_id
        && state.is_pending(id) by {
        assert(ids.contains(id));
        let i = choose|i: int| 0 <= i < ids.len() && ids[i] == id;
        assert(state.pending[i].0 == id);
    }
    assert forall|id: u64| state.is_pending(id) implies state.waiting().count(id) > 0 by {
        let i = choose|i: int| 0 <= i < state.pending.len() && (#[trigger] state.pending[i]).0 == id;
        assert(ids[i] == id);
        assert(ids.contains(id));
    }
}

/// One exchange keeps the state well-formed, never lowers the next id, and
/// accounts for every id: what was pending or is registered is afterwards
/// delivered, failed or still pending.
proof fn lemma_step<W>(state: ProcessView<W>, exchange: Exchange<W>)
    requires
        state.well_formed(),
    ensures
        state.step(exchange).well_formed(),
        state.step(exchange).next_request_id >= state.next_request_id,
        state.waiting().add(state.issued_by(exchange)) == state.delivered_by(exchange).add(
            state.failed_by(exchange),
        ).add(state.step(exchange).waiting()),
        forall|id: u64|
            state.issued_by(exchange).count(id) > 0 ==> state.next_request_id <= id
                < state.step(exchange).next_request_id,
        forall|id: u64| state.issued_by(exchange).count(id) <= 1,
{
    broadcast use vstd::seq_lib::group_to_multiset_ensures;
    broadcast use vstd::multiset::group_multiset_axioms;

    lemma_waiting_once(state);
    let next = state.step(exchange);
    match exchange {
        Exchange::Request { waiter } => {
            if state.can_issue() {
                assert(next.pending_ids() =~= state.pending_ids().push(state.next_request_id));
                assert(next.waiting() =~= state.waiting().insert(state.next_request_id));
                assert(state.waiting().add(state.issued_by(exchange)) =~= state.delivered_by(
                    exchange,
                ).add(state.failed_by(exchange)).add(next.waiting()));
            } else {
                assert(state.waiting().add(state.issued_by(exchange)) =~= state.delivered_by(
                    exchange,
                ).add(state.failed_by(exchange)).add(next.waiting()));
            }
        },
        Exchange::Reply { id } => {
            if state.is_pending(id) {
                let at = state.position(id);
                assert(next.pending_ids() =~= state.pending_ids().remove(at));
                assert(state.pending_ids()[at] == id);
                assert(next.waiting() =~= state.waiting().remove(id));
                assert(state.waiting().count(id) > 0);
                assert(state.waiting().add(state.issued_by(exchange)) =~= state.delivered_by(
                    exchange,
                ).add(state.failed_by(exchange)).add(next.waiting()));
                assert forall|i: int, j: int| 0 <= i < j < next.pending.len() implies (
                #[trigger] next.pending[i]).0 < (#[trigger] next.pending[j]).0 by {
                    let a = if i < at { i } else { i + 1 };
                    let b = if j < at { j } else { j + 1 };
                    assert(next.pending[i] == state.pending[a]);
                    assert(next.pending[j] == state.pending[b]);
                    assert(state.pending[a].0 < state.pending[b].0);
                }
                assert forall|i: int| 0 <= i < next.pending.len() implies 1 <= (
                #[trigger] next.pending[i]).0 < next.next_request_id by {
                    let a = if i < at { i } else { i + 1 };
                    assert(next.pending[i] == state.pending[a]);
                }
            } else {
                assert(state.waiting().add(state.issued_by(exchange)) =~= state.delivered_by(
                    exchange,
                ).add(state.failed_by(exchange)).add(next.waiting()));
            }
        },
        Exchange::Disconnect => {
            assert(next.pending_ids() =~= Seq::<u64>::empty());
            assert(next.waiting() =~= Multiset::<u64>::empty());
            assert(state.waiting().add(state.issued_by(exchange)) =~= state.delivered_by(
                exchange,
            ).add(state.failed_by(exchange)).add(next.waiting()));
        },
    }
}

/// Every request ends exactly once.
///
/// Take any well-formed state of a plugin's bookkeeping and any history of
/// requests, replies and disconnects after it. Then the ids that were pending
/// at the start or registered since are, counted with multiplicity, exactly
/// the ids that were delivered a reply, that were failed by a disconnect, or
/// that are still pending; and none of them occurs twice. So no id is ever
/// registered twice, no wait ends twice, and a wait that has ended ended in
/// one way only.
pub proof fn lemma_every_request_ends_once<W>(start: ProcessView<W>, history: Seq<Exchange<W>>)
    requires
        start.well_formed(),
    ensures
        start.after(history).well_formed(),
        start.after(history).next_request_id >= start.next_request_id,
        start.waiting().add(start.issued(history)) == start.delivered(history).add(
            start.failed(history),
        ).add(start.after(history).waiting()),
        forall|id: u64| start.waiting().add(start.issued(history)).count(id) <= 1,
        forall|id: u64|
            start.waiting().add(start.issued(history)).count(id) > 0 ==> id < start.after(
                history,
            ).next_request_id,
    decreases history.len(),
{
    broadcast use vstd::multiset::group_multiset_axioms;

    if history.len() == 0 {
        lemma_waiting_once(start);
        assert(start.waiting().add(start.issued(history)) =~= start.delivered(history).add(
            start.failed(history),
        ).add(start.after(history).waiting()));
    } else {
        let earlier = history.drop_last();
        let mid = start.after(earlier);
        let last = history.last();
        lemma_every_request_ends_once(start, earlier);
        lemma_step(mid, last);
        let seen = start.waiting().add(start.issued(history));
        let ended = start.delivered(history).add(start.failed(history)).add(
            start.after(history).waiting(),
        );
        let seen_earlier = start.waiting().add(start.issued(earlier));
        let ended_earlier = start.delivered(earlier).add(start.failed(earlier)).add(mid.waiting());
        let now = mid.waiting().add(mid.issued_by(last));
        let then = mid.delivered_by(last).add(mid.failed_by(last)).add(mid.step(last).waiting());
        assert forall|id: u64| seen.count(id) == ended.count(id) && seen.count(id) <= 1 && (
        seen.count(id) > 0 ==> id < start.after(history).next_request_id) by {
            assert(seen_earlier.count(id) == ended_earlier.count(id));
            assert(now.count(id) == then.count(id));
            assert(seen.count(id) == seen_earlier.count(id) + mid.issued_by(last).count(id));
        }
        assert(seen =~= ended);
    }
}

/// After a disconnect nothing is pending: over a history that ends with one,
/// the ids that were pending at the start or registered since are exactly the
/// ids whose wait has ended.
pub proof fn lemma_disconnect_ends_every_wait<W>(start: ProcessView<W>, history: Seq<Exchange<W>>)
    requires
        start.well_formed(),
        history.len() > 0,
        history.last() is Disconnect,
    ensures
        start.after(history).pending.len() == 0,
        start.waiting().add(start.issued(history)) == start.delivered(history).add(
            start.failed(history),
        ),
{
    broadcast use vstd::multiset::group_multiset_axioms;
    broadcast use vstd::seq_lib::group_to_multiset_ensures;

    lemma_every_request_ends_once(start, history);
    assert(start.after(history).pending_ids() =~= Seq::<u64>::empty());
    assert(start.after(history).waiting() =~= Multiset::<u64>::empty());
    assert(start.waiting().add(start.issued(history)) =~= start.delivered(history).add(
        start.failed(history),
    ));
}

} // verus!
