//! The flat store record: the single-level key/value representation of an
//! Order that the persistence sink upserts, with nested fields renamed and
//! merged to the top level and the numeric measurements converted to text.

use vstd::prelude::*;
use crate::order::{MeasurementsView, Order, OrderDetailsView, OrderView};
use crate::text::{all_digits, dec, digits_val, lemma_dec_digits, lemma_dec_val, usize_dec};

verus! {

/// The flat record of an Order: nine key/value pairs, in a fixed order,
/// every field textually preserved (measurements as decimal text).
pub open spec fn flat_of(o: OrderView) -> Seq<(Seq<char>, Seq<char>)> {
    seq![
        ("orderid"@, o.orderid),
        ("resellerid"@, o.resellerid),
        ("payment_status"@, o.payment_status),
        ("payment_amount"@, o.payment_amount),
        ("clothing_type"@, o.details.clothingtype),
        ("quantity"@, o.details.quantity),
        ("measure_length"@, dec(o.details.measurement.length)),
        ("measure_breadth"@, dec(o.details.measurement.breadth)),
        ("timestamp"@, o.timestamp),
    ]
}

/// Flatten an Order into the record the sink upserts to the store.
pub fn flatten_order(o: &Order) -> (r: Vec<(String, String)>)
    ensures
        r.deep_view() == flat_of(o@),
{
    let mut r: Vec<(String, String)> = Vec::new();
    r.push((String::from_str("orderid"), o.orderid.clone()));
    r.push((String::from_str("resellerid"), o.resellerid.clone()));
    r.push((String::from_str("payment_status"), o.payment_status.clone()));
    r.push((String::from_str("payment_amount"), o.payment_amount.clone()));
    r.push((String::from_str("clothing_type"), o.details.clothingtype.clone()));
    r.push((String::from_str("quantity"), o.details.quantity.clone()));
    r.push((String::from_str("measure_length"), usize_dec(o.details.measurement.length)));
    r.push((String::from_str("measure_breadth"), usize_dec(o.details.measurement.breadth)));
    r.push((String::from_str("timestamp"), o.timestamp.clone()));
    proof {
        assert(r.deep_view() =~= flat_of(o@));
    }
    r
}

/// Re-join a flat record into the nested Order it came from: the nine keys
/// in the record's fixed order, the measurement values read back from their
/// decimal text.
pub open spec fn rejoin(r: Seq<(Seq<char>, Seq<char>)>) -> Option<OrderView> {
    if {
        &&& r.len() == 9
        &&& r[0].0 == "orderid"@
        &&& r[1].0 == "resellerid"@
        &&& r[2].0 == "payment_status"@
        &&& r[3].0 == "payment_amount"@
        &&& r[4].0 == "clothing_type"@
        &&& r[5].0 == "quantity"@
        &&& r[6].0 == "measure_length"@
        &&& r[7].0 == "measure_breadth"@
        &&& r[8].0 == "timestamp"@
        &&& all_digits(r[6].1)
        &&& all_digits(r[7].1)
    } {
        Some(
            OrderView {
                orderid: r[0].1,
                resellerid: r[1].1,
                payment_status: r[2].1,
                payment_amount: r[3].1,
                details: OrderDetailsView {
                    clothingtype: r[4].1,
                    quantity: r[5].1,
                    measurement: MeasurementsView {
                        length: digits_val(r[6].1),
                        breadth: digits_val(r[7].1),
                    },
                },
                timestamp: r[8].1,
            },
        )
    } else {
        None
    }
}

/// Round trip of the persistence step: flattening loses nothing — re-joining
/// the flat record restores every field of the Order, the nested structure
/// included.
pub proof fn lemma_flatten_rejoin(o: OrderView)
    ensures
        rejoin(flat_of(o)) == Some(o),
{
    lemma_dec_digits(o.details.measurement.length);
    lemma_dec_digits(o.details.measurement.breadth);
    lemma_dec_val(o.details.measurement.length);
    lemma_dec_val(o.details.measurement.breadth);
    assert(rejoin(flat_of(o)).unwrap() =~= o);
}

} // verus!
