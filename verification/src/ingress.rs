//! Ingress decisions: what each HTTP operation answers and what it hands to
//! the broker. The HTTP server itself stands outside the library and passes
//! request bodies in and response bodies out as plain text.

use vstd::prelude::*;
use crate::codec::{error_message, error_text, json_of, order_to_json, parse_order, spec_parse_order};

verus! {

/// The fixed liveness-probe body.
pub fn hello_body() -> (r: String)
    ensures
        r@ == "Hello world!"@,
{
    String::from_str("Hello world!")
}

/// The fixed body answered as soon as the broker client accepts an order
/// into its send buffer.
pub open spec fn success_text() -> Seq<char> {
    "Order place order successfully"@
}

/// The broker partitioning key of an order.
pub open spec fn key_of(orderid: Seq<char>) -> Seq<char> {
    "key-"@ + orderid
}

/// Build the broker partitioning key for an order id.
pub fn publish_key(orderid: &str) -> (r: String)
    ensures
        r@ == key_of(orderid@),
{
    let mut s = String::from_str("key-");
    s.append(orderid);
    s
}

/// What the ingress decides for one order-placement request body.
pub enum PlaceOrderOutcome {
    /// The body decodes into a complete Order: publish `payload` under
    /// `key` and answer with the fixed success body.
    Publish { key: String, payload: String, response: String },
    /// The body does not decode: publish nothing and answer with a failure
    /// body naming the first absent member.
    Reject { response: String },
}

/// Decide one order-placement request: a body that decodes into a complete
/// Order — members in any order — is accepted, serialized to wire text and
/// keyed by its order id; exactly the bodies that do not decode are
/// rejected, with no publish and a response naming the first absent member
/// in declaration order.
pub fn place_order(body: &str) -> (r: PlaceOrderOutcome)
    ensures
        match spec_parse_order(body@) {
            Ok(o) => {
                &&& r matches PlaceOrderOutcome::Publish { key, payload, response }
                &&& key@ == key_of(o.orderid)
                &&& payload@ == json_of(o)
                &&& response@ == success_text()
            },
            Err(e) => {
                &&& r matches PlaceOrderOutcome::Reject { response }
                &&& response@ == error_text(e)
            },
        },
{
    match parse_order(body) {
        Ok(o) => {
            let key = publish_key(o.orderid.as_str());
            let payload = order_to_json(&o);
            let response = String::from_str("Order place order successfully");
            PlaceOrderOutcome::Publish { key, payload, response }
        },
        Err(e) => PlaceOrderOutcome::Reject { response: error_message(&e) },
    }
}

/// The full-table query URL of the external store.
pub fn store_query_url(base: &str) -> (r: String)
    ensures
        r@ == base@ + "?select=*"@,
{
    let mut s = String::new();
    s.append(base);
    s.append("?select=*");
    proof {
        assert(s@ =~= base@ + "?select=*"@);
    }
    s
}

/// The authorization header value for the external store.
pub fn bearer_value(apikey: &str) -> (r: String)
    ensures
        r@ == "Bearer "@ + apikey@,
{
    let mut s = String::from_str("Bearer ");
    s.append(apikey);
    s
}

/// The order-query response: the store's JSON array, byte for byte, with
/// no transformation.
pub fn orders_response_body(store_body: String) -> (r: String)
    ensures
        r@ == store_body@,
{
    store_body
}

} // verus!
