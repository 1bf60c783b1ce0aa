use order_relay::codec::{error_message, order_to_json, parse_order, Field, ParseError};
use order_relay::order::{Measurements, Order, OrderDetails};

fn sample_order() -> Order {
    Order {
        orderid: String::from("Ord-1"),
        resellerid: String::from("Rs-1"),
        payment_status: String::from("paid"),
        payment_amount: String::from("10000"),
        details: OrderDetails {
            clothingtype: String::from("Shirt"),
            quantity: String::from("18"),
            measurement: Measurements { length: 32, breadth: 28 },
        },
        timestamp: String::from("1646337578"),
    }
}

#[test]
fn serializes_to_pretty_json() {
    let text = order_to_json(&sample_order());
    let expected = "{\n  \"orderid\": \"Ord-1\",\n  \"resellerid\": \"Rs-1\",\n  \"payment_status\": \"paid\",\n  \"payment_amount\": \"10000\",\n  \"details\": {\n    \"clothingtype\": \"Shirt\",\n    \"quantity\": \"18\",\n    \"measurement\": {\n      \"length\": 32,\n      \"breadth\": 28\n    }\n  },\n  \"timestamp\": \"1646337578\"\n}";
    assert_eq!(text, expected);
}

#[test]
fn wire_round_trip_preserves_every_field() {
    let o = sample_order();
    let text = order_to_json(&o);
    let back = parse_order(&text).expect("canonical text must parse");
    assert_eq!(back.orderid, "Ord-1");
    assert_eq!(back.resellerid, "Rs-1");
    assert_eq!(back.payment_status, "paid");
    assert_eq!(back.payment_amount, "10000");
    assert_eq!(back.details.clothingtype, "Shirt");
    assert_eq!(back.details.quantity, "18");
    assert_eq!(back.details.measurement.length, 32);
    assert_eq!(back.details.measurement.breadth, 28);
    assert_eq!(back.timestamp, "1646337578");
}

#[test]
fn empty_object_names_orderid_as_first_missing_field() {
    let err = parse_order("{}").expect_err("an empty object is not an Order");
    assert_eq!(err, ParseError::Missing(Field::Orderid));
    assert_eq!(
        error_message(&err),
        "Json deserialize error: missing field `orderid`"
    );
}

#[test]
fn missing_middle_field_is_named() {
    let body = "{\n  \"orderid\": \"Ord-1\",\n  \"payment_status\": \"paid\"\n}";
    let err = parse_order(body).expect_err("resellerid is missing");
    assert_eq!(err, ParseError::Missing(Field::Resellerid));
    assert_eq!(
        error_message(&err),
        "Json deserialize error: missing field `resellerid`"
    );
}

#[test]
fn missing_nested_field_is_named() {
    let body = "{\n  \"orderid\": \"a\",\n  \"resellerid\": \"b\",\n  \"payment_status\": \"c\",\n  \"payment_amount\": \"d\",\n  \"details\": {\n    \"clothingtype\": \"e\"\n  },\n  \"timestamp\": \"f\"\n}";
    let err = parse_order(body).expect_err("quantity is missing");
    assert_eq!(err, ParseError::Missing(Field::Quantity));
}

#[test]
fn whitespace_between_tokens_is_accepted() {
    let body = "  { \"orderid\" : \"a\" , \"resellerid\" : \"b\" , \"payment_status\" : \"c\" , \"payment_amount\" : \"d\" , \"details\" : { \"clothingtype\" : \"e\" , \"quantity\" : \"f\" , \"measurement\" : { \"length\" : 1 , \"breadth\" : 0 } } , \"timestamp\" : \"g\" }  ";
    let o = parse_order(body).expect("whitespace variants must parse");
    assert_eq!(o.orderid, "a");
    assert_eq!(o.details.measurement.length, 1);
    assert_eq!(o.details.measurement.breadth, 0);
}

#[test]
fn trailing_garbage_is_invalid() {
    let mut body = order_to_json(&sample_order());
    body.push_str("x");
    let err = parse_order(&body).expect_err("trailing text is not an Order");
    assert_eq!(err, ParseError::Invalid);
}

#[test]
fn leading_zero_in_measurement_is_invalid() {
    let body = "{\n  \"orderid\": \"a\",\n  \"resellerid\": \"b\",\n  \"payment_status\": \"c\",\n  \"payment_amount\": \"d\",\n  \"details\": {\n    \"clothingtype\": \"e\",\n    \"quantity\": \"f\",\n    \"measurement\": {\n      \"length\": 032,\n      \"breadth\": 28\n    }\n  },\n  \"timestamp\": \"g\"\n}";
    let err = parse_order(body).expect_err("leading zeros are not JSON numbers");
    assert_eq!(err, ParseError::Invalid);
}

#[test]
fn oversized_measurement_is_invalid() {
    let body = "{\n  \"orderid\": \"a\",\n  \"resellerid\": \"b\",\n  \"payment_status\": \"c\",\n  \"payment_amount\": \"d\",\n  \"details\": {\n    \"clothingtype\": \"e\",\n    \"quantity\": \"f\",\n    \"measurement\": {\n      \"length\": 999999999999999999999,\n      \"breadth\": 28\n    }\n  },\n  \"timestamp\": \"g\"\n}";
    let err = parse_order(body).expect_err("a 21-digit measurement does not fit");
    assert_eq!(err, ParseError::Invalid);
}

#[test]
fn members_in_any_order_are_accepted() {
    let body = "{\"timestamp\":\"1646337578\", \"details\":{\"measurement\":{\"breadth\":28, \"length\":32}, \"quantity\":\"18\", \"clothingtype\":\"Shirt\"}, \"payment_amount\":\"10000\", \"payment_status\":\"paid\", \"resellerid\":\"Rs-1\", \"orderid\":\"Ord-1\"}";
    let o = parse_order(body).expect("member order must not matter");
    assert_eq!(o.orderid, "Ord-1");
    assert_eq!(o.resellerid, "Rs-1");
    assert_eq!(o.details.measurement.length, 32);
    assert_eq!(o.details.measurement.breadth, 28);
    assert_eq!(o.timestamp, "1646337578");
}

#[test]
fn absent_member_is_named_even_when_later_members_come_first() {
    let body = "{\"payment_status\":\"paid\", \"orderid\":\"Ord-1\", \"payment_amount\":\"10000\", \"details\":{\"clothingtype\":\"Shirt\", \"quantity\":\"18\", \"measurement\":{\"length\":32, \"breadth\":28}}, \"timestamp\":\"1646337578\"}";
    let err = parse_order(body).expect_err("resellerid is absent");
    assert_eq!(err, ParseError::Missing(Field::Resellerid));
}

#[test]
fn duplicate_member_is_invalid() {
    let body = "{\"orderid\":\"Ord-1\", \"orderid\":\"Ord-2\"}";
    let err = parse_order(body).expect_err("a duplicate member is not a strict record");
    assert_eq!(err, ParseError::Invalid);
}

#[test]
fn unknown_member_is_invalid() {
    let body = "{\"orderid\":\"Ord-1\", \"color\":\"red\"}";
    let err = parse_order(body).expect_err("the record is strict, not an open map");
    assert_eq!(err, ParseError::Invalid);
}

#[test]
fn empty_orderid_is_invalid() {
    let body = "{\"orderid\":\"\", \"resellerid\":\"Rs-1\", \"payment_status\":\"paid\", \"payment_amount\":\"10000\", \"details\":{\"clothingtype\":\"Shirt\", \"quantity\":\"18\", \"measurement\":{\"length\":32, \"breadth\":28}}, \"timestamp\":\"1646337578\"}";
    let err = parse_order(body).expect_err("orderid is required non-empty");
    assert_eq!(err, ParseError::Invalid);
}

#[test]
fn trailing_comma_is_invalid() {
    let body = "{\"orderid\":\"Ord-1\",}";
    let err = parse_order(body).expect_err("a trailing comma is not a member");
    assert_eq!(err, ParseError::Invalid);
}
