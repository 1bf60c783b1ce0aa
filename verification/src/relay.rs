//! The relay side of the pipeline: the subscribe/persist loop's decisions.
//! The broker poll, the in-process queue and the store upsert run outside
//! the library; what flows through them is decided and formatted here.

use vstd::prelude::*;
use crate::codec::{spec_parse_order, ParseError};
use crate::flatten::{flat_of, flatten_order};
use crate::order::{Order, OrderView};
use crate::text::{i64_dec, sdec};

verus! {

/// What the sink upserts for a queue of Orders drained in arrival order:
/// one flat record per Order, at the Order's own position.
pub open spec fn sink_outputs(orders: Seq<OrderView>) -> Seq<Seq<(Seq<char>, Seq<char>)>> {
    orders.map_values(|o: OrderView| flat_of(o))
}

/// FIFO order is kept end to end: the sink attempts exactly one upsert per
/// queued Order, and the record attempted at position `k` is the flat record
/// of the Order queued at position `k` — so an Order queued earlier is
/// upserted strictly before one queued later.
pub proof fn lemma_sink_preserves_order(orders: Seq<OrderView>)
    ensures
        sink_outputs(orders).len() == orders.len(),
        forall|k: int| 0 <= k < orders.len() ==> sink_outputs(orders)[k] == flat_of(orders[k]),
{
}

/// No deduplication: the same Order queued twice yields two independent
/// upsert attempts, not one.
pub proof fn lemma_sink_no_dedup(o: OrderView)
    ensures
        sink_outputs(seq![o, o]) =~= seq![flat_of(o), flat_of(o)],
{
}

/// Drain a queue of Orders in arrival order into the records to upsert,
/// one per Order, order preserved.
pub fn drain_queue(orders: &Vec<Order>) -> (r: Vec<Vec<(String, String)>>)
    ensures
        r@.len() == orders@.len(),
        forall|k: int| 0 <= k < orders@.len() ==> #[trigger] r@[k].deep_view() == flat_of(
            orders@[k]@,
        ),
{
    let mut r: Vec<Vec<(String, String)>> = Vec::new();
    let mut idx: usize = 0;
    while idx < orders.len()
        invariant
            idx <= orders@.len(),
            r@.len() == idx,
            forall|k: int| 0 <= k < idx ==> #[trigger] r@[k].deep_view() == flat_of(orders@[k]@),
        decreases orders@.len() - idx,
    {
        let rec = flatten_order(&orders[idx]);
        r.push(rec);
        idx = idx + 1;
    }
    r
}

/// What the relay listener forwards for the broker messages polled so far,
/// in poll order: one decode outcome per message payload.
pub open spec fn listener_outputs(payloads: Seq<Seq<char>>) -> Seq<Result<OrderView, ParseError>> {
    payloads.map_values(|p: Seq<char>| spec_parse_order(p))
}

/// The listener forwards exactly one decoded Order per polled message, in
/// poll order, with no drop, duplication or reordering: the outcome at
/// position `k` is the decode of the payload at position `k`. The poll loop
/// itself, which feeds payloads in single-partition publish order, runs
/// outside the library.
pub proof fn lemma_listener_preserves_order(payloads: Seq<Seq<char>>)
    ensures
        listener_outputs(payloads).len() == payloads.len(),
        forall|k: int| 0 <= k < payloads.len() ==> listener_outputs(payloads)[k]
            == spec_parse_order(payloads[k]),
{
}

/// The single broker topic the pipeline publishes to and consumes from.
pub fn broker_topic() -> (r: &'static str)
    ensures
        r@ == "orders"@,
{
    "orders"
}

/// The fixed consumer-group identity under which the relay listener
/// subscribes.
pub fn consumer_group() -> (r: &'static str)
    ensures
        r@ == "my_consumer_group"@,
{
    "my_consumer_group"
}

/// The broker's report on one published message, as the delivery callback
/// receives it: where the message landed, or why it failed.
pub enum DeliveryOutcome {
    /// The broker stored the message at `offset` of `partition`.
    Delivered { key: String, partition: i32, offset: i64 },
    /// The broker rejected the message; `error` is its description.
    Failed { key: String, error: String },
}

/// The log line recording one delivery outcome — the only record of true
/// delivery success or failure the system keeps.
pub open spec fn delivery_log_text(d: DeliveryOutcome) -> Seq<char> {
    match d {
        DeliveryOutcome::Delivered { key, partition, offset } => "produced message with key "@
            + key@ + " in offset "@ + sdec(offset as int) + " of partition "@ + sdec(
            partition as int,
        ),
        DeliveryOutcome::Failed { key, error } => "failed to produce message with key "@ + key@
            + " - "@ + error@,
    }
}

/// Format the log line for one delivery outcome.
pub fn delivery_log_line(d: &DeliveryOutcome) -> (r: String)
    ensures
        r@ == delivery_log_text(*d),
{
    match d {
        DeliveryOutcome::Delivered { key, partition, offset } => {
            let mut s = String::from_str("produced message with key ");
            s.append(key.as_str());
            s.append(" in offset ");
            let offset_text = i64_dec(*offset);
            s.append(offset_text.as_str());
            s.append(" of partition ");
            let partition_text = i64_dec(*partition as i64);
            s.append(partition_text.as_str());
            proof {
                assert(s@ =~= delivery_log_text(*d));
            }
            s
        },
        DeliveryOutcome::Failed { key, error } => {
            let mut s = String::from_str("failed to produce message with key ");
            s.append(key.as_str());
            s.append(" - ");
            s.append(error.as_str());
            proof {
                assert(s@ =~= delivery_log_text(*d));
            }
            s
        },
    }
}

} // verus!
