use order_relay::flatten::flatten_order;
use order_relay::ingress::{bearer_value, hello_body, orders_response_body, place_order, publish_key, store_query_url, PlaceOrderOutcome};
use order_relay::order::{Measurements, Order, OrderDetails};
use order_relay::relay::{delivery_log_line, drain_queue, DeliveryOutcome};
use order_relay::text::{i64_dec, usize_dec};

fn sample_order() -> Order {
    Order {
        orderid: String::from("Ord-1"),
        resellerid: String::from("Rs-1"),
        payment_status: String::from("paid"),
        payment_amount: String::from("10000"),
        details: OrderDetails {
            clothingtype: String::from("Shirt"),
            quantity: String::from("18"),
            measurement: Measurements { length: 32, breadth: 28 },
        },
        timestamp: String::from("1646337578"),
    }
}

fn sample_body() -> String {
    String::from(
        "{\"orderid\":\"Ord-1\", \"resellerid\":\"Rs-1\", \"payment_status\":\"paid\", \"payment_amount\":\"10000\", \"details\":{\"clothingtype\":\"Shirt\", \"quantity\":\"18\", \"measurement\":{\"length\":32, \"breadth\":28}}, \"timestamp\":\"1646337578\"}",
    )
}

#[test]
fn valid_order_is_published_with_success_body() {
    match place_order(&sample_body()) {
        PlaceOrderOutcome::Publish { key, payload, response } => {
            assert_eq!(key, "key-Ord-1");
            assert_eq!(response, "Order place order successfully");
            assert!(payload.contains("\"orderid\": \"Ord-1\""));
            assert!(payload.contains("\"length\": 32"));
        },
        PlaceOrderOutcome::Reject { response } => {
            panic!("a complete Order must be accepted: {}", response);
        },
    }
}

#[test]
fn empty_body_is_rejected_naming_orderid() {
    match place_order("{}") {
        PlaceOrderOutcome::Publish { .. } => {
            panic!("an empty body must be rejected");
        },
        PlaceOrderOutcome::Reject { response } => {
            assert_eq!(response, "Json deserialize error: missing field `orderid`");
        },
    }
}

#[test]
fn flat_record_has_the_nine_store_keys() {
    let rec = flatten_order(&sample_order());
    let pairs: Vec<(&str, &str)> = rec.iter().map(|p| (p.0.as_str(), p.1.as_str())).collect();
    assert_eq!(
        pairs,
        vec![
            ("orderid", "Ord-1"),
            ("resellerid", "Rs-1"),
            ("payment_status", "paid"),
            ("payment_amount", "10000"),
            ("clothing_type", "Shirt"),
            ("quantity", "18"),
            ("measure_length", "32"),
            ("measure_breadth", "28"),
            ("timestamp", "1646337578"),
        ]
    );
}

#[test]
fn same_order_twice_gives_two_upsert_records() {
    let orders = vec![sample_order(), sample_order()];
    let records = drain_queue(&orders);
    assert_eq!(records.len(), 2);
    assert_eq!(records[0], records[1]);
}

#[test]
fn drained_records_keep_queue_order() {
    let mut second = sample_order();
    second.orderid = String::from("Ord-2");
    let orders = vec![sample_order(), second];
    let records = drain_queue(&orders);
    assert_eq!(records.len(), 2);
    assert_eq!(records[0][0].1, "Ord-1");
    assert_eq!(records[1][0].1, "Ord-2");
}

#[test]
fn liveness_body_is_fixed() {
    assert_eq!(hello_body(), "Hello world!");
}

#[test]
fn store_query_is_select_all() {
    assert_eq!(store_query_url("http://store.local/orders"), "http://store.local/orders?select=*");
}

#[test]
fn bearer_header_prefixes_the_key() {
    assert_eq!(bearer_value("store-api-key"), "Bearer store-api-key");
}

#[test]
fn orders_are_relayed_verbatim() {
    let body = String::from("[{\"orderid\":\"Ord-1\"}]");
    assert_eq!(orders_response_body(body.clone()), body);
}

#[test]
fn publish_key_is_prefixed_orderid() {
    assert_eq!(publish_key("Ord-1"), "key-Ord-1");
}

#[test]
fn delivery_outcomes_are_logged_exactly() {
    let ok = DeliveryOutcome::Delivered {
        key: String::from("key-Ord-1"),
        partition: 2,
        offset: 41,
    };
    assert_eq!(
        delivery_log_line(&ok),
        "produced message with key key-Ord-1 in offset 41 of partition 2"
    );
    let bad = DeliveryOutcome::Failed {
        key: String::from("key-Ord-1"),
        error: String::from("broker unreachable"),
    };
    assert_eq!(
        delivery_log_line(&bad),
        "failed to produce message with key key-Ord-1 - broker unreachable"
    );
}

#[test]
fn decimal_rendering_matches_std() {
    assert_eq!(usize_dec(0), "0");
    assert_eq!(usize_dec(12345), "12345");
    assert_eq!(usize_dec(usize::MAX), usize::MAX.to_string());
    assert_eq!(i64_dec(-5), "-5");
    assert_eq!(i64_dec(i64::MIN), i64::MIN.to_string());
    assert_eq!(i64_dec(7), "7");
}

#[test]
fn reordered_valid_body_is_still_published() {
    let body = "{\"timestamp\":\"1646337578\", \"payment_amount\":\"10000\", \"orderid\":\"Ord-1\", \"details\":{\"quantity\":\"18\", \"clothingtype\":\"Shirt\", \"measurement\":{\"breadth\":28, \"length\":32}}, \"payment_status\":\"paid\", \"resellerid\":\"Rs-1\"}";
    match place_order(body) {
        PlaceOrderOutcome::Publish { key, payload, response } => {
            assert_eq!(key, "key-Ord-1");
            assert_eq!(response, "Order place order successfully");
            assert!(payload.contains("\"resellerid\": \"Rs-1\""));
        },
        PlaceOrderOutcome::Reject { response } => {
            panic!("member order must not matter: {}", response);
        },
    }
}
