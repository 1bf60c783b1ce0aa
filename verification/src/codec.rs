//! The JSON wire codec for Orders: the exact pretty-printed text an Order is
//! serialized to for broker transport, and the strict parser that
//! reconstructs an Order from that wire text. The parser accepts arbitrary
//! whitespace between tokens and members in any order; it rejects duplicate
//! and unknown members (the record is strict, not an open map) and, at the
//! end of an object, reports the first absent member in declaration order.

use vstd::prelude::*;
use crate::order::{Measurements, MeasurementsView, Order, OrderDetails, OrderDetailsView, OrderView, plain, plain_char};
use crate::text::{dec, digit_run, digit_val, digits_val, is_digit, pow10, usize_dec};
use crate::text::{lemma_digit_run_props, lemma_digits_val_concat, lemma_pow10_mono, lemma_pow10_pos, lemma_pow10_20};

verus! {

/// A required member of the Order wire record, for error reporting.
#[derive(Clone, Copy, PartialEq, Eq, Structural, Debug)]
pub enum Field {
    Orderid,
    Resellerid,
    PaymentStatus,
    PaymentAmount,
    Details,
    Clothingtype,
    Quantity,
    Measurement,
    Length,
    Breadth,
    Timestamp,
}

/// Why a request body failed to decode into an Order.
#[derive(Clone, Copy, PartialEq, Eq, Structural, Debug)]
pub enum ParseError {
    /// The first required member that is absent, in declaration order.
    Missing(Field),
    /// The body is not a well-formed Order record at all.
    Invalid,
}

/// The wire name of a field.
pub open spec fn field_name(f: Field) -> Seq<char> {
    match f {
        Field::Orderid => "orderid"@,
        Field::Resellerid => "resellerid"@,
        Field::PaymentStatus => "payment_status"@,
        Field::PaymentAmount => "payment_amount"@,
        Field::Details => "details"@,
        Field::Clothingtype => "clothingtype"@,
        Field::Quantity => "quantity"@,
        Field::Measurement => "measurement"@,
        Field::Length => "length"@,
        Field::Breadth => "breadth"@,
        Field::Timestamp => "timestamp"@,
    }
}

/// The wire name of a field, as text.
pub fn field_name_str(f: Field) -> (r: &'static str)
    ensures
        r@ == field_name(f),
{
    match f {
        Field::Orderid => "orderid",
        Field::Resellerid => "resellerid",
        Field::PaymentStatus => "payment_status",
        Field::PaymentAmount => "payment_amount",
        Field::Details => "details",
        Field::Clothingtype => "clothingtype",
        Field::Quantity => "quantity",
        Field::Measurement => "measurement",
        Field::Length => "length",
        Field::Breadth => "breadth",
        Field::Timestamp => "timestamp",
    }
}

/// The caller-visible text of a decode failure: it names the first missing
/// field, as the ingress contract requires.
pub open spec fn error_text(e: ParseError) -> Seq<char> {
    match e {
        ParseError::Missing(f) => "Json deserialize error: missing field `"@ + field_name(f) + "`"@,
        ParseError::Invalid => "Json deserialize error: invalid Order body"@,
    }
}

/// The caller-visible message of a decode failure.
pub fn error_message(e: &ParseError) -> (r: String)
    ensures
        r@ == error_text(*e),
{
    match e {
        ParseError::Missing(f) => {
            let mut s = String::from_str("Json deserialize error: missing field `");
            s.append(field_name_str(*f));
            s.append("`");
            s
        },
        ParseError::Invalid => String::from_str("Json deserialize error: invalid Order body"),
    }
}

/// Is `c` insignificant whitespace between tokens?
pub open spec fn is_ws(c: char) -> bool {
    c == ' ' || c == '\n' || c == '\t' || c == '\r'
}

/// First index at or after `i` holding a non-whitespace character (or the
/// end of the text).
pub open spec fn spec_skip_ws(s: Seq<char>, i: int) -> int
    decreases s.len() - i,
{
    if 0 <= i < s.len() && is_ws(s[i]) {
        spec_skip_ws(s, i + 1)
    } else {
        i
    }
}

/// Does the literal `lit` stand in `s` at position `i`?
pub open spec fn has_lit_at(s: Seq<char>, i: int, lit: Seq<char>) -> bool {
    &&& 0 <= i
    &&& i + lit.len() <= s.len()
    &&& forall|k: int| 0 <= k < lit.len() ==> s[i + k] == lit[k]
}

/// Consume the literal `lit` at position `i`.
pub open spec fn spec_expect(s: Seq<char>, i: int, lit: Seq<char>) -> Option<int> {
    if has_lit_at(s, i, lit) {
        Some(i + lit.len() as int)
    } else {
        None
    }
}

/// Index of the closing quote of a string whose content starts at `i`:
/// the first quote at or after `i`, provided everything before it is a
/// character the wire carries verbatim.
pub open spec fn spec_str_end(s: Seq<char>, i: int) -> Option<int>
    decreases s.len() - i,
{
    if 0 <= i < s.len() {
        if s[i] == '"' {
            Some(i)
        } else if plain_char(s[i]) {
            spec_str_end(s, i + 1)
        } else {
            None
        }
    } else {
        None
    }
}

/// Scan a string body starting at `i` (just after the opening quote):
/// yields the content and the index just past the closing quote.
pub open spec fn spec_scan_str(s: Seq<char>, i: int) -> Option<(Seq<char>, int)> {
    match spec_str_end(s, i) {
        Some(j) => Some((s.subrange(i, j), j + 1)),
        None => None,
    }
}

/// Scan an unsigned decimal number at `i`: no leading zero, at most
/// twenty digits; yields the value and the index just past the digits.
pub open spec fn spec_scan_uint(s: Seq<char>, i: int) -> Option<(nat, int)> {
    if 0 <= i < s.len() && is_digit(s[i]) {
        if s[i] == '0' {
            if i + 1 < s.len() && is_digit(s[i + 1]) {
                None
            } else {
                Some((0, i + 1))
            }
        } else {
            let r = digit_run(s, i);
            if r > 20 {
                None
            } else {
                Some((digits_val(s.subrange(i, i + r)), i + r))
            }
        }
    } else {
        None
    }
}

/// Consume a member's lead-in up to the start of its value: optional
/// whitespace, a comma unless this is the object's first member, the quoted
/// member name, a colon, and the whitespace around them; yields the name
/// and the start of the value.
pub open spec fn spec_member_name(s: Seq<char>, i: int, first: bool) -> Option<(Seq<char>, int)> {
    let j0 = spec_skip_ws(s, i);
    let sep = if first {
        Some(j0)
    } else {
        spec_expect(s, j0, seq![','])
    };
    match sep {
        Some(j1) => {
            let j2 = spec_skip_ws(s, j1);
            match spec_expect(s, j2, seq!['"']) {
                Some(j3) => match spec_scan_str(s, j3) {
                    Some((name, j4)) => {
                        let j5 = spec_skip_ws(s, j4);
                        match spec_expect(s, j5, seq![':']) {
                            Some(j6) => Some((name, spec_skip_ws(s, j6))),
                            None => None,
                        }
                    },
                    None => None,
                },
                None => None,
            }
        },
        None => None,
    }
}

/// A quoted string value standing at `i`.
pub open spec fn spec_strval(s: Seq<char>, i: int) -> Option<(Seq<char>, int)> {
    match spec_expect(s, i, seq!['"']) {
        Some(j) => spec_scan_str(s, j),
        None => None,
    }
}

/// The first absent measurement member, in declaration order.
pub open spec fn missing_measurement(length: Option<nat>, breadth: Option<nat>) -> Field {
    if length is None {
        Field::Length
    } else {
        Field::Breadth
    }
}

/// Parse measurement members from `i` on — just after the opening brace when
/// `first`, just after a member's value otherwise — accepting the members in
/// any order and rejecting a duplicate or unknown name (the record is
/// strict, not an open map), until the closing brace; there the first
/// absent member, in declaration order, decides the error.
pub open spec fn spec_measurement_members(
    s: Seq<char>,
    i: int,
    first: bool,
    length: Option<nat>,
    breadth: Option<nat>,
    fuel: nat,
) -> Result<(MeasurementsView, int), ParseError>
    decreases fuel,
{
    if fuel == 0 {
        Err(ParseError::Invalid)
    } else {
        let j = spec_skip_ws(s, i);
        match spec_expect(s, j, seq!['}']) {
            Some(jc) => match (length, breadth) {
                (Some(l), Some(b)) => Ok((MeasurementsView { length: l, breadth: b }, jc)),
                _ => Err(ParseError::Missing(missing_measurement(length, breadth))),
            },
            None => match spec_member_name(s, i, first) {
                None => Err(ParseError::Invalid),
                Some((name, j0)) => if name == "length"@ && length is None {
                    match spec_scan_uint(s, j0) {
                        None => Err(ParseError::Invalid),
                        Some((v, j1)) => if v > usize::MAX {
                            Err(ParseError::Invalid)
                        } else {
                            spec_measurement_members(
                                s,
                                j1,
                                false,
                                Some(v),
                                breadth,
                                (fuel - 1) as nat,
                            )
                        },
                    }
                } else if name == "breadth"@ && breadth is None {
                    match spec_scan_uint(s, j0) {
                        None => Err(ParseError::Invalid),
                        Some((v, j1)) => if v > usize::MAX {
                            Err(ParseError::Invalid)
                        } else {
                            spec_measurement_members(
                                s,
                                j1,
                                false,
                                length,
                                Some(v),
                                (fuel - 1) as nat,
                            )
                        },
                    }
                } else {
                    Err(ParseError::Invalid)
                },
            },
        }
    }
}

/// Parse the measurement object whose opening brace stands at `i`.
pub open spec fn spec_parse_measurement(s: Seq<char>, i: int) -> Result<(MeasurementsView, int), ParseError> {
    match spec_expect(s, i, seq!['{']) {
        None => Err(ParseError::Invalid),
        Some(j0) => spec_measurement_members(s, j0, true, None, None, 3),
    }
}

/// The first absent details member, in declaration order.
pub open spec fn missing_details(
    clothingtype: Option<Seq<char>>,
    quantity: Option<Seq<char>>,
    measurement: Option<MeasurementsView>,
) -> Field {
    if clothingtype is None {
        Field::Clothingtype
    } else if quantity is None {
        Field::Quantity
    } else {
        Field::Measurement
    }
}

/// Parse details members from `i` on, members in any order, duplicates and
/// unknown names rejected; at the closing brace the first absent member, in
/// declaration order, decides the error.
pub open spec fn spec_details_members(
    s: Seq<char>,
    i: int,
    first: bool,
    clothingtype: Option<Seq<char>>,
    quantity: Option<Seq<char>>,
    measurement: Option<MeasurementsView>,
    fuel: nat,
) -> Result<(OrderDetailsView, int), ParseError>
    decreases fuel,
{
    if fuel == 0 {
        Err(ParseError::Invalid)
    } else {
        let j = spec_skip_ws(s, i);
        match spec_expect(s, j, seq!['}']) {
            Some(jc) => match (clothingtype, quantity, measurement) {
                (Some(c), Some(q), Some(m)) => Ok(
                    (OrderDetailsView { clothingtype: c, quantity: q, measurement: m }, jc),
                ),
                _ => Err(ParseError::Missing(missing_details(clothingtype, quantity, measurement))),
            },
            None => match spec_member_name(s, i, first) {
                None => Err(ParseError::Invalid),
                Some((name, j0)) => if name == "clothingtype"@ && clothingtype is None {
                    match spec_strval(s, j0) {
                        None => Err(ParseError::Invalid),
                        Some((v, j1)) => spec_details_members(
                            s,
                            j1,
                            false,
                            Some(v),
                            quantity,
                            measurement,
                            (fuel - 1) as nat,
                        ),
                    }
                } else if name == "quantity"@ && quantity is None {
                    match spec_strval(s, j0) {
                        None => Err(ParseError::Invalid),
                        Some((v, j1)) => spec_details_members(
                            s,
                            j1,
                            false,
                            clothingtype,
                            Some(v),
                            measurement,
                            (fuel - 1) as nat,
                        ),
                    }
                } else if name == "measurement"@ && measurement is None {
                    match spec_parse_measurement(s, j0) {
                        Err(e) => Err(e),
                        Ok((m, j1)) => spec_details_members(
                            s,
                            j1,
                            false,
                            clothingtype,
                            quantity,
                            Some(m),
                            (fuel - 1) as nat,
                        ),
                    }
                } else {
                    Err(ParseError::Invalid)
                },
            },
        }
    }
}

/// Parse the details object whose opening brace stands at `i`.
pub open spec fn spec_parse_details(s: Seq<char>, i: int) -> Result<(OrderDetailsView, int), ParseError> {
    match spec_expect(s, i, seq!['{']) {
        None => Err(ParseError::Invalid),
        Some(j0) => spec_details_members(s, j0, true, None, None, None, 4),
    }
}

/// The first absent top-level member, in declaration order.
pub open spec fn missing_order(
    orderid: Option<Seq<char>>,
    resellerid: Option<Seq<char>>,
    payment_status: Option<Seq<char>>,
    payment_amount: Option<Seq<char>>,
    details: Option<OrderDetailsView>,
    timestamp: Option<Seq<char>>,
) -> Field {
    if orderid is None {
        Field::Orderid
    } else if resellerid is None {
        Field::Resellerid
    } else if payment_status is None {
        Field::PaymentStatus
    } else if payment_amount is None {
        Field::PaymentAmount
    } else if details is None {
        Field::Details
    } else {
        Field::Timestamp
    }
}

/// Parse top-level Order members from `i` on, members in any order,
/// duplicates and unknown names rejected, an empty order id rejected; at the
/// closing brace the first absent member, in declaration order, decides the
/// error.
pub open spec fn spec_order_members(
    s: Seq<char>,
    i: int,
    first: bool,
    orderid: Option<Seq<char>>,
    resellerid: Option<Seq<char>>,
    payment_status: Option<Seq<char>>,
    payment_amount: Option<Seq<char>>,
    details: Option<OrderDetailsView>,
    timestamp: Option<Seq<char>>,
    fuel: nat,
) -> Result<(OrderView, int), ParseError>
    decreases fuel,
{
    if fuel == 0 {
        Err(ParseError::Invalid)
    } else {
        let j = spec_skip_ws(s, i);
        match spec_expect(s, j, seq!['}']) {
            Some(jc) => match (orderid, resellerid, payment_status, payment_amount, details, timestamp) {
                (Some(oid), Some(rid), Some(pst), Some(pam), Some(det), Some(ts)) => Ok(
                    (
                        OrderView {
                            orderid: oid,
                            resellerid: rid,
                            payment_status: pst,
                            payment_amount: pam,
                            details: det,
                            timestamp: ts,
                        },
                        jc,
                    ),
                ),
                _ => Err(ParseError::Missing(missing_order(
                    orderid,
                    resellerid,
                    payment_status,
                    payment_amount,
                    details,
                    timestamp,
                ))),
            },
            None => match spec_member_name(s, i, first) {
                None => Err(ParseError::Invalid),
                Some((name, j0)) => if name == "orderid"@ && orderid is None {
                    match spec_strval(s, j0) {
                        None => Err(ParseError::Invalid),
                        Some((v, j1)) => if v.len() == 0 {
                            Err(ParseError::Invalid)
                        } else {
                            spec_order_members(s, j1, false, Some(v), resellerid, payment_status,
                                payment_amount, details, timestamp, (fuel - 1) as nat)
                        },
                    }
                } else if name == "resellerid"@ && resellerid is None {
                    match spec_strval(s, j0) {
                        None => Err(ParseError::Invalid),
                        Some((v, j1)) => spec_order_members(s, j1, false, orderid, Some(v),
                            payment_status, payment_amount, details, timestamp, (fuel - 1) as nat),
                    }
                } else if name == "payment_status"@ && payment_status is None {
                    match spec_strval(s, j0) {
                        None => Err(ParseError::Invalid),
                        Some((v, j1)) => spec_order_members(s, j1, false, orderid, resellerid,
                            Some(v), payment_amount, details, timestamp, (fuel - 1) as nat),
                    }
                } else if name == "payment_amount"@ && payment_amount is None {
                    match spec_strval(s, j0) {
                        None => Err(ParseError::Invalid),
                        Some((v, j1)) => spec_order_members(s, j1, false, orderid, resellerid,
                            payment_status, Some(v), details, timestamp, (fuel - 1) as nat),
                    }
                } else if name == "details"@ && details is None {
                    match spec_parse_details(s, j0) {
                        Err(e) => Err(e),
                        Ok((d, j1)) => spec_order_members(s, j1, false, orderid, resellerid,
                            payment_status, payment_amount, Some(d), timestamp, (fuel - 1) as nat),
                    }
                } else if name == "timestamp"@ && timestamp is None {
                    match spec_strval(s, j0) {
                        None => Err(ParseError::Invalid),
                        Some((v, j1)) => spec_order_members(s, j1, false, orderid, resellerid,
                            payment_status, payment_amount, details, Some(v), (fuel - 1) as nat),
                    }
                } else {
                    Err(ParseError::Invalid)
                },
            },
        }
    }
}

/// Parse a complete Order record starting at `i`.
pub open spec fn spec_parse_order_at(s: Seq<char>, i: int) -> Result<(OrderView, int), ParseError> {
    match spec_expect(s, spec_skip_ws(s, i), seq!['{']) {
        None => Err(ParseError::Invalid),
        Some(j0) => spec_order_members(s, j0, true, None, None, None, None, None, None, 7),
    }
}

/// Decode a whole request or message body into an Order: one Order record,
/// nothing but whitespace after it.
pub open spec fn spec_parse_order(s: Seq<char>) -> Result<OrderView, ParseError> {
    match spec_parse_order_at(s, 0) {
        Err(e) => Err(e),
        Ok((o, j)) => if spec_skip_ws(s, j) == s.len() {
            Ok(o)
        } else {
            Err(ParseError::Invalid)
        },
    }
}

/// The wire text of the measurement object alone.
pub open spec fn json_of_measurement(m: MeasurementsView) -> Seq<char> {
    "{\n      \"length\": "@ + dec(m.length) + ",\n      \"breadth\": "@ + dec(m.breadth)
        + "\n    }"@
}

/// The wire text of the details object alone.
pub open spec fn json_of_details(d: OrderDetailsView) -> Seq<char> {
    "{\n    \"clothingtype\": \""@ + d.clothingtype + "\",\n    \"quantity\": \""@ + d.quantity
        + "\",\n    \"measurement\": "@ + json_of_measurement(d.measurement) + "\n  }"@
}

/// The exact pretty-printed wire text of an Order: two-space indentation,
/// one member per line, members in declaration order.
pub open spec fn json_of(o: OrderView) -> Seq<char> {
    "{\n  \"orderid\": \""@ + o.orderid + "\",\n  \"resellerid\": \""@ + o.resellerid
        + "\",\n  \"payment_status\": \""@ + o.payment_status + "\",\n  \"payment_amount\": \""@
        + o.payment_amount + "\",\n  \"details\": "@ + json_of_details(o.details)
        + ",\n  \"timestamp\": \""@ + o.timestamp + "\"\n}"@
}

/// Serialize an Order to its wire text.
#[verifier::rlimit(100)]
pub fn order_to_json(o: &Order) -> (r: String)
    ensures
        r@ == json_of(o@),
{
    let mut s = String::from_str("{\n  \"orderid\": \"");
    s.append(o.orderid.as_str());
    s.append("\",\n  \"resellerid\": \"");
    s.append(o.resellerid.as_str());
    s.append("\",\n  \"payment_status\": \"");
    s.append(o.payment_status.as_str());
    s.append("\",\n  \"payment_amount\": \"");
    s.append(o.payment_amount.as_str());
    s.append("\",\n  \"details\": ");
    s.append("{\n    \"clothingtype\": \"");
    s.append(o.details.clothingtype.as_str());
    s.append("\",\n    \"quantity\": \"");
    s.append(o.details.quantity.as_str());
    s.append("\",\n    \"measurement\": ");
    s.append("{\n      \"length\": ");
    let length_text = usize_dec(o.details.measurement.length);
    s.append(length_text.as_str());
    s.append(",\n      \"breadth\": ");
    let breadth_text = usize_dec(o.details.measurement.breadth);
    s.append(breadth_text.as_str());
    s.append("\n    }");
    s.append("\n  }");
    s.append(",\n  \"timestamp\": \"");
    s.append(o.timestamp.as_str());
    s.append("\"\n}");
    proof {
        assert(s@ =~= json_of(o@));
    }
    s
}

/// Everything before a closing quote found by `spec_str_end` is carried
/// verbatim, and the quote is inside the text.
pub proof fn lemma_str_end_plain(s: Seq<char>, i: int)
    requires
        0 <= i <= s.len(),
        spec_str_end(s, i) is Some,
    ensures
        i <= spec_str_end(s, i).unwrap() < s.len(),
        s[spec_str_end(s, i).unwrap()] == '"',
        plain(s.subrange(i, spec_str_end(s, i).unwrap())),
    decreases s.len() - i,
{
    let j = spec_str_end(s, i).unwrap();
    if s[i] == '"' {
        assert(s.subrange(i, j) =~= Seq::<char>::empty());
    } else {
        lemma_str_end_plain(s, i + 1);
        assert forall|k: int| 0 <= k < j - i implies plain_char(#[trigger] s.subrange(i, j)[k]) by {
            if k == 0 {
                assert(s.subrange(i, j)[0] == s[i]);
            } else {
                assert(s.subrange(i + 1, j)[k - 1] == s[i + k]);
            }
        }
    }
}

/// Is `c` a decimal digit?
fn is_digit_c(c: char) -> (r: bool)
    ensures
        r == is_digit(c),
{
    let u = c as u32;
    48 <= u && u <= 57
}

/// Is `c` insignificant whitespace?
fn is_ws_c(c: char) -> (r: bool)
    ensures
        r == is_ws(c),
{
    c == ' ' || c == '\n' || c == '\t' || c == '\r'
}

/// Skip insignificant whitespace.
fn skip_ws(s: &str, i: usize) -> (r: usize)
    requires
        i as int <= s@.len(),
    ensures
        i <= r,
        r as int <= s@.len(),
        r as int == spec_skip_ws(s@, i as int),
    decreases s@.len() - i,
{
    let n = s.unicode_len();
    if i < n {
        let c = s.get_char(i);
        if is_ws_c(c) {
            return skip_ws(s, i + 1);
        }
    }
    i
}

/// Does `s` hold all of `lit` from position `k` on at offset `i`?
fn match_at(s: &str, i: usize, lit: &str, k: usize) -> (r: bool)
    requires
        k as int <= lit@.len(),
        i + lit@.len() <= s@.len(),
        s@.len() <= usize::MAX,
    ensures
        r == forall|t: int| k <= t < lit@.len() ==> s@[i + t] == lit@[t],
    decreases lit@.len() - k,
{
    let m = lit.unicode_len();
    if k >= m {
        true
    } else {
        let a = s.get_char(i + k);
        let b = lit.get_char(k);
        if a == b {
            let rest = match_at(s, i, lit, k + 1);
            proof {
                if rest {
                    assert forall|t: int| k <= t < lit@.len() implies s@[i + t] == lit@[t] by {
                        if t == k {
                        } else {
                            assert(s@[i + t] == lit@[t]);
                        }
                    }
                }
            }
            rest
        } else {
            false
        }
    }
}

/// Consume the literal `lit` at position `i`.
fn expect_lit(s: &str, i: usize, lit: &str) -> (r: Option<usize>)
    requires
        i as int <= s@.len(),
    ensures
        match r {
            Some(j) => {
                &&& spec_expect(s@, i as int, lit@) == Some(j as int)
                &&& i <= j
                &&& j as int <= s@.len()
            },
            None => spec_expect(s@, i as int, lit@) is None,
        },
{
    let n = s.unicode_len();
    let m = lit.unicode_len();
    if m > n - i {
        return None;
    }
    if match_at(s, i, lit, 0) {
        Some(i + m)
    } else {
        None
    }
}

/// Find the closing quote of a string whose content starts at `i`.
fn str_end(s: &str, i: usize) -> (r: Option<usize>)
    requires
        i as int <= s@.len(),
    ensures
        match r {
            Some(j) => {
                &&& spec_str_end(s@, i as int) == Some(j as int)
                &&& i <= j
                &&& (j as int) < s@.len()
            },
            None => spec_str_end(s@, i as int) is None,
        },
    decreases s@.len() - i,
{
    let n = s.unicode_len();
    if i < n {
        let c = s.get_char(i);
        if c == '"' {
            Some(i)
        } else if c != '\\' && (c as u32) >= 32 {
            str_end(s, i + 1)
        } else {
            None
        }
    } else {
        None
    }
}

/// Scan a string body starting just after its opening quote.
fn scan_str(s: &str, i: usize) -> (r: Option<(String, usize)>)
    requires
        i as int <= s@.len(),
    ensures
        match r {
            Some(t) => {
                &&& spec_scan_str(s@, i as int) == Some((t.0@, t.1 as int))
                &&& plain(t.0@)
                &&& i <= t.1
                &&& t.1 as int <= s@.len()
            },
            None => spec_scan_str(s@, i as int) is None,
        },
{
    match str_end(s, i) {
        Some(j) => {
            proof {
                lemma_str_end_plain(s@, i as int);
            }
            let _n = s.unicode_len();
            let sub = s.substring_char(i, j);
            let t = String::from_str(sub);
            Some((t, j + 1))
        },
        None => None,
    }
}

/// Count the digits from `i` on.
fn count_digits(s: &str, i: usize) -> (r: usize)
    requires
        i as int <= s@.len(),
    ensures
        r as int == digit_run(s@, i as int),
        i + r <= s@.len(),
    decreases s@.len() - i,
{
    let n = s.unicode_len();
    if i < n {
        let c = s.get_char(i);
        if is_digit_c(c) {
            let rest = count_digits(s, i + 1);
            return rest + 1;
        }
    }
    0
}

/// Read the value of the digits in `[i, end)`, left to right, on top of the
/// value `acc` of the digits already read.
fn read_digits(s: &str, i: usize, end: usize, acc: u128) -> (r: u128)
    requires
        i <= end,
        end as int <= s@.len(),
        end - i <= 20,
        forall|k: int| i <= k < end ==> is_digit(s@[k]),
        (acc as nat) < pow10((20 - (end - i)) as nat),
    ensures
        r as nat == (acc as nat) * pow10((end - i) as nat) + digits_val(
            s@.subrange(i as int, end as int),
        ),
        (r as nat) < pow10(20),
    decreases end - i,
{
    if i == end {
        proof {
            assert(s@.subrange(i as int, end as int) =~= Seq::<char>::empty());
            assert(digits_val(Seq::<char>::empty()) == 0);
            assert(pow10(0) == 1);
            assert((end - i) as nat == 0);
            assert(pow10((end - i) as nat) == 1);
            assert((acc as nat) * 1 == acc as nat) by (nonlinear_arith);
            assert(acc as nat == (acc as nat) * pow10((end - i) as nat) + digits_val(
                s@.subrange(i as int, end as int),
            ));
        }
        acc
    } else {
        let c = s.get_char(i);
        let ghost k = (20 - (end - i)) as nat;
        proof {
            assert(is_digit(s@[i as int]));
            assert(pow10(k + 1) == 10 * pow10(k));
            assert((acc as nat) * 10 <= (pow10(k) - 1) * 10) by (nonlinear_arith)
                requires
                    (acc as nat) <= pow10(k) - 1,
                    pow10(k) >= 1,
            {
            }
            lemma_pow10_pos(k);
            lemma_pow10_mono(k + 1, 20);
            lemma_pow10_20();
        }
        let d: u128 = (c as u32 - 48) as u128;
        let acc2 = acc * 10 + d;
        let r = read_digits(s, i + 1, end, acc2);
        proof {
            let m = (end - i) as nat;
            let sub = s@.subrange(i as int, end as int);
            let sub1 = s@.subrange(i + 1, end as int);
            let d0 = s@.subrange(i as int, i + 1);
            assert(sub =~= d0 + sub1);
            lemma_digits_val_concat(d0, sub1);
            assert(d0.drop_last() =~= Seq::<char>::empty());
            assert(digits_val(Seq::<char>::empty()) == 0);
            assert(d0.last() == s@[i as int]);
            assert(digits_val(d0) == digit_val(s@[i as int]));
            assert(digit_val(s@[i as int]) == d as nat);
            assert(pow10(m) == 10 * pow10((m - 1) as nat));
            assert(((acc as nat) * 10 + (d as nat)) * pow10((m - 1) as nat) == (acc as nat) * (10
                * pow10((m - 1) as nat)) + (d as nat) * pow10((m - 1) as nat)) by (nonlinear_arith);
            assert(sub1 == s@.subrange(i + 1 as int, end as int));
            assert(r as nat == (acc2 as nat) * pow10((m - 1) as nat) + digits_val(sub1));
            assert(acc2 as nat == (acc as nat) * 10 + (d as nat));
            assert(digits_val(sub) == (d as nat) * pow10((m - 1) as nat) + digits_val(sub1));
            assert(r as nat == (acc as nat) * pow10(m) + digits_val(sub));
        }
        r
    }
}

/// Scan an unsigned decimal number at `i`.
fn scan_uint(s: &str, i: usize) -> (r: Option<(u128, usize)>)
    requires
        i as int <= s@.len(),
    ensures
        match r {
            Some(t) => {
                &&& spec_scan_uint(s@, i as int) == Some((t.0 as nat, t.1 as int))
                &&& i < t.1
                &&& t.1 as int <= s@.len()
            },
            None => spec_scan_uint(s@, i as int) is None,
        },
{
    let n = s.unicode_len();
    if i >= n {
        return None;
    }
    let c = s.get_char(i);
    if !is_digit_c(c) {
        return None;
    }
    if c == '0' {
        if i + 1 < n {
            let c1 = s.get_char(i + 1);
            if is_digit_c(c1) {
                return None;
            }
        }
        return Some((0, i + 1));
    }
    let run = count_digits(s, i);
    proof {
        lemma_digit_run_props(s@, i as int);
        assert(digit_run(s@, i as int) >= 1);
    }
    if run > 20 {
        return None;
    }
    proof {
        lemma_pow10_pos((20 - run) as nat);
    }
    let v = read_digits(s, i, i + run, 0);
    Some((v, i + run))
}

/// Consume a member's lead-in up to the start of its value.
fn member_name(s: &str, i: usize, first: bool) -> (r: Option<(String, usize)>)
    requires
        i as int <= s@.len(),
    ensures
        match r {
            Some(t) => {
                &&& spec_member_name(s@, i as int, first) == Some((t.0@, t.1 as int))
                &&& t.1 as int <= s@.len()
            },
            None => spec_member_name(s@, i as int, first) is None,
        },
{
    proof {
        reveal_strlit(",");
        reveal_strlit(":");
        reveal_strlit("\"");
        assert(","@ =~= seq![',']);
        assert(":"@ =~= seq![':']);
        assert("\""@ =~= seq!['"']);
    }
    let j0 = skip_ws(s, i);
    let j1 = if first {
        j0
    } else {
        match expect_lit(s, j0, ",") {
            Some(j) => j,
            None => {
                return None;
            },
        }
    };
    let j2 = skip_ws(s, j1);
    let j3 = match expect_lit(s, j2, "\"") {
        Some(j) => j,
        None => {
            return None;
        },
    };
    let (name, j4) = match scan_str(s, j3) {
        Some(t) => t,
        None => {
            return None;
        },
    };
    let j5 = skip_ws(s, j4);
    let j6 = match expect_lit(s, j5, ":") {
        Some(j) => j,
        None => {
            return None;
        },
    };
    Some((name, skip_ws(s, j6)))
}

/// A quoted string value standing at `i`.
fn strval(s: &str, i: usize) -> (r: Option<(String, usize)>)
    requires
        i as int <= s@.len(),
    ensures
        match r {
            Some(t) => {
                &&& spec_strval(s@, i as int) == Some((t.0@, t.1 as int))
                &&& plain(t.0@)
                &&& t.1 as int <= s@.len()
            },
            None => spec_strval(s@, i as int) is None,
        },
{
    proof {
        reveal_strlit("\"");
        assert("\""@ =~= seq!['"']);
    }
    let j = match expect_lit(s, i, "\"") {
        Some(j) => j,
        None => {
            return None;
        },
    };
    scan_str(s, j)
}

/// Does the scanned member name equal the known name `name`?
fn name_is(k: &String, name: &str) -> (r: bool)
    ensures
        r == (k@ == name@),
{
    let n = String::from_str(name);
    *k == n
}

/// The view of an optional number.
spec fn opt_nat(x: Option<usize>) -> Option<nat> {
    match x {
        Some(v) => Some(v as nat),
        None => None,
    }
}

/// The view of an optional text field.
spec fn opt_seq(x: Option<String>) -> Option<Seq<char>> {
    match x {
        Some(v) => Some(v@),
        None => None,
    }
}

/// The view of optional details.
spec fn opt_details(x: Option<OrderDetails>) -> Option<OrderDetailsView> {
    match x {
        Some(v) => Some(v@),
        None => None,
    }
}

/// Is every text field of an optional value carried verbatim?
spec fn opt_plain(x: Option<String>) -> bool {
    match x {
        Some(v) => plain(v@),
        None => true,
    }
}

/// Parse measurement members from `i` on; see `spec_measurement_members`.
fn measurement_members(
    s: &str,
    i: usize,
    first: bool,
    length: Option<usize>,
    breadth: Option<usize>,
    fuel: u32,
) -> (r: Result<(Measurements, usize), ParseError>)
    requires
        i as int <= s@.len(),
    ensures
        match r {
            Ok(t) => {
                &&& spec_measurement_members(s@, i as int, first, opt_nat(length), opt_nat(breadth), fuel as nat)
                    == Ok::<_, ParseError>((t.0@, t.1 as int))
                &&& t.1 as int <= s@.len()
            },
            Err(e) => spec_measurement_members(s@, i as int, first, opt_nat(length), opt_nat(breadth), fuel as nat)
                == Err::<(MeasurementsView, int), _>(e),
        },
    decreases fuel,
{
    proof {
        reveal_strlit("}");
        assert("}"@ =~= seq!['}']);
    }
    if fuel == 0 {
        return Err(ParseError::Invalid);
    }
    let j = skip_ws(s, i);
    if let Some(jc) = expect_lit(s, j, "}") {
        return match (length, breadth) {
            (Some(l), Some(b)) => Ok((Measurements { length: l, breadth: b }, jc)),
            (None, _) => Err(ParseError::Missing(Field::Length)),
            (_, None) => Err(ParseError::Missing(Field::Breadth)),
        };
    }
    let (name, j0) = match member_name(s, i, first) {
        Some(t) => t,
        None => {
            return Err(ParseError::Invalid);
        },
    };
    if name_is(&name, "length") && length.is_none() {
        let (v, j1) = match scan_uint(s, j0) {
            Some(t) => t,
            None => {
                return Err(ParseError::Invalid);
            },
        };
        if v > usize::MAX as u128 {
            return Err(ParseError::Invalid);
        }
        measurement_members(s, j1, false, Some(v as usize), breadth, fuel - 1)
    } else if name_is(&name, "breadth") && breadth.is_none() {
        let (v, j1) = match scan_uint(s, j0) {
            Some(t) => t,
            None => {
                return Err(ParseError::Invalid);
            },
        };
        if v > usize::MAX as u128 {
            return Err(ParseError::Invalid);
        }
        measurement_members(s, j1, false, length, Some(v as usize), fuel - 1)
    } else {
        Err(ParseError::Invalid)
    }
}

/// Parse the measurement object whose opening brace stands at `i`.
fn parse_measurement(s: &str, i: usize) -> (r: Result<(Measurements, usize), ParseError>)
    requires
        i as int <= s@.len(),
    ensures
        match r {
            Ok(t) => {
                &&& spec_parse_measurement(s@, i as int) == Ok::<_, ParseError>((t.0@, t.1 as int))
                &&& t.1 as int <= s@.len()
            },
            Err(e) => spec_parse_measurement(s@, i as int) == Err::<(MeasurementsView, int), _>(e),
        },
{
    proof {
        reveal_strlit("{");
        assert("{"@ =~= seq!['{']);
    }
    let j0 = match expect_lit(s, i, "{") {
        Some(j) => j,
        None => {
            return Err(ParseError::Invalid);
        },
    };
    measurement_members(s, j0, true, None, None, 3)
}

/// Parse details members from `i` on; see `spec_details_members`.
fn details_members(
    s: &str,
    i: usize,
    first: bool,
    clothingtype: Option<String>,
    quantity: Option<String>,
    measurement: Option<Measurements>,
    fuel: u32,
) -> (r: Result<(OrderDetails, usize), ParseError>)
    requires
        i as int <= s@.len(),
        opt_plain(clothingtype),
        opt_plain(quantity),
    ensures
        match r {
            Ok(t) => {
                &&& spec_details_members(
                    s@,
                    i as int,
                    first,
                    opt_seq(clothingtype),
                    opt_seq(quantity),
                    match measurement {
                        Some(m) => Some(m@),
                        None => None,
                    },
                    fuel as nat,
                ) == Ok::<_, ParseError>((t.0@, t.1 as int))
                &&& plain(t.0.clothingtype@)
                &&& plain(t.0.quantity@)
                &&& t.1 as int <= s@.len()
            },
            Err(e) => spec_details_members(
                s@,
                i as int,
                first,
                opt_seq(clothingtype),
                opt_seq(quantity),
                match measurement {
                    Some(m) => Some(m@),
                    None => None,
                },
                fuel as nat,
            ) == Err::<(OrderDetailsView, int), _>(e),
        },
    decreases fuel,
{
    proof {
        reveal_strlit("}");
        assert("}"@ =~= seq!['}']);
    }
    if fuel == 0 {
        return Err(ParseError::Invalid);
    }
    let j = skip_ws(s, i);
    if let Some(jc) = expect_lit(s, j, "}") {
        return match (clothingtype, quantity, measurement) {
            (Some(c), Some(q), Some(m)) => Ok(
                (OrderDetails { clothingtype: c, quantity: q, measurement: m }, jc),
            ),
            (None, _, _) => Err(ParseError::Missing(Field::Clothingtype)),
            (_, None, _) => Err(ParseError::Missing(Field::Quantity)),
            (_, _, None) => Err(ParseError::Missing(Field::Measurement)),
        };
    }
    let (name, j0) = match member_name(s, i, first) {
        Some(t) => t,
        None => {
            return Err(ParseError::Invalid);
        },
    };
    if name_is(&name, "clothingtype") && clothingtype.is_none() {
        let (v, j1) = match strval(s, j0) {
            Some(t) => t,
            None => {
                return Err(ParseError::Invalid);
            },
        };
        details_members(s, j1, false, Some(v), quantity, measurement, fuel - 1)
    } else if name_is(&name, "quantity") && quantity.is_none() {
        let (v, j1) = match strval(s, j0) {
            Some(t) => t,
            None => {
                return Err(ParseError::Invalid);
            },
        };
        details_members(s, j1, false, clothingtype, Some(v), measurement, fuel - 1)
    } else if name_is(&name, "measurement") && measurement.is_none() {
        let (m, j1) = match parse_measurement(s, j0) {
            Ok(t) => t,
            Err(e) => {
                return Err(e);
            },
        };
        details_members(s, j1, false, clothingtype, quantity, Some(m), fuel - 1)
    } else {
        Err(ParseError::Invalid)
    }
}

/// Parse the details object whose opening brace stands at `i`.
fn parse_details(s: &str, i: usize) -> (r: Result<(OrderDetails, usize), ParseError>)
    requires
        i as int <= s@.len(),
    ensures
        match r {
            Ok(t) => {
                &&& spec_parse_details(s@, i as int) == Ok::<_, ParseError>((t.0@, t.1 as int))
                &&& plain(t.0.clothingtype@)
                &&& plain(t.0.quantity@)
                &&& t.1 as int <= s@.len()
            },
            Err(e) => spec_parse_details(s@, i as int) == Err::<(OrderDetailsView, int), _>(e),
        },
{
    proof {
        reveal_strlit("{");
        assert("{"@ =~= seq!['{']);
    }
    let j0 = match expect_lit(s, i, "{") {
        Some(j) => j,
        None => {
            return Err(ParseError::Invalid);
        },
    };
    details_members(s, j0, true, None, None, None, 4)
}

/// Parse top-level Order members from `i` on; see `spec_order_members`.
fn order_members(
    s: &str,
    i: usize,
    first: bool,
    orderid: Option<String>,
    resellerid: Option<String>,
    payment_status: Option<String>,
    payment_amount: Option<String>,
    details: Option<OrderDetails>,
    timestamp: Option<String>,
    fuel: u32,
) -> (r: Result<(Order, usize), ParseError>)
    requires
        i as int <= s@.len(),
        opt_plain(orderid),
        opt_plain(resellerid),
        opt_plain(payment_status),
        opt_plain(payment_amount),
        opt_plain(timestamp),
        match orderid {
            Some(v) => v@.len() > 0,
            None => true,
        },
        match details {
            Some(d) => plain(d.clothingtype@) && plain(d.quantity@),
            None => true,
        },
    ensures
        match r {
            Ok(t) => {
                &&& spec_order_members(
                    s@,
                    i as int,
                    first,
                    opt_seq(orderid),
                    opt_seq(resellerid),
                    opt_seq(payment_status),
                    opt_seq(payment_amount),
                    opt_details(details),
                    opt_seq(timestamp),
                    fuel as nat,
                ) == Ok::<_, ParseError>((t.0@, t.1 as int))
                &&& t.0@.wf()
                &&& t.1 as int <= s@.len()
            },
            Err(e) => spec_order_members(
                s@,
                i as int,
                first,
                opt_seq(orderid),
                opt_seq(resellerid),
                opt_seq(payment_status),
                opt_seq(payment_amount),
                opt_details(details),
                opt_seq(timestamp),
                fuel as nat,
            ) == Err::<(OrderView, int), _>(e),
        },
    decreases fuel,
{
    proof {
        reveal_strlit("}");
        assert("}"@ =~= seq!['}']);
    }
    if fuel == 0 {
        return Err(ParseError::Invalid);
    }
    let j = skip_ws(s, i);
    if let Some(jc) = expect_lit(s, j, "}") {
        return match (orderid, resellerid, payment_status, payment_amount, details, timestamp) {
            (Some(oid), Some(rid), Some(pst), Some(pam), Some(det), Some(ts)) => Ok(
                (
                    Order {
                        orderid: oid,
                        resellerid: rid,
                        payment_status: pst,
                        payment_amount: pam,
                        details: det,
                        timestamp: ts,
                    },
                    jc,
                ),
            ),
            (None, _, _, _, _, _) => Err(ParseError::Missing(Field::Orderid)),
            (_, None, _, _, _, _) => Err(ParseError::Missing(Field::Resellerid)),
            (_, _, None, _, _, _) => Err(ParseError::Missing(Field::PaymentStatus)),
            (_, _, _, None, _, _) => Err(ParseError::Missing(Field::PaymentAmount)),
            (_, _, _, _, None, _) => Err(ParseError::Missing(Field::Details)),
            (_, _, _, _, _, None) => Err(ParseError::Missing(Field::Timestamp)),
        };
    }
    let (name, j0) = match member_name(s, i, first) {
        Some(t) => t,
        None => {
            return Err(ParseError::Invalid);
        },
    };
    if name_is(&name, "orderid") && orderid.is_none() {
        let (v, j1) = match strval(s, j0) {
            Some(t) => t,
            None => {
                return Err(ParseError::Invalid);
            },
        };
        if v.as_str().unicode_len() == 0 {
            return Err(ParseError::Invalid);
        }
        order_members(s, j1, false, Some(v), resellerid, payment_status, payment_amount, details,
            timestamp, fuel - 1)
    } else if name_is(&name, "resellerid") && resellerid.is_none() {
        let (v, j1) = match strval(s, j0) {
            Some(t) => t,
            None => {
                return Err(ParseError::Invalid);
            },
        };
        order_members(s, j1, false, orderid, Some(v), payment_status, payment_amount, details,
            timestamp, fuel - 1)
    } else if name_is(&name, "payment_status") && payment_status.is_none() {
        let (v, j1) = match strval(s, j0) {
            Some(t) => t,
            None => {
                return Err(ParseError::Invalid);
            },
        };
        order_members(s, j1, false, orderid, resellerid, Some(v), payment_amount, details,
            timestamp, fuel - 1)
    } else if name_is(&name, "payment_amount") && payment_amount.is_none() {
        let (v, j1) = match strval(s, j0) {
            Some(t) => t,
            None => {
                return Err(ParseError::Invalid);
            },
        };
        order_members(s, j1, false, orderid, resellerid, payment_status, Some(v), details,
            timestamp, fuel - 1)
    } else if name_is(&name, "details") && details.is_none() {
        let (d, j1) = match parse_details(s, j0) {
            Ok(t) => t,
            Err(e) => {
                return Err(e);
            },
        };
        order_members(s, j1, false, orderid, resellerid, payment_status, payment_amount, Some(d),
            timestamp, fuel - 1)
    } else if name_is(&name, "timestamp") && timestamp.is_none() {
        let (v, j1) = match strval(s, j0) {
            Some(t) => t,
            None => {
                return Err(ParseError::Invalid);
            },
        };
        order_members(s, j1, false, orderid, resellerid, payment_status, payment_amount, details,
            Some(v), fuel - 1)
    } else {
        Err(ParseError::Invalid)
    }
}

/// Parse a complete Order record starting at `i`.
fn parse_order_at(s: &str, i: usize) -> (r: Result<(Order, usize), ParseError>)
    requires
        i as int <= s@.len(),
    ensures
        match r {
            Ok(t) => {
                &&& spec_parse_order_at(s@, i as int) == Ok::<_, ParseError>((t.0@, t.1 as int))
                &&& t.0@.wf()
                &&& t.1 as int <= s@.len()
            },
            Err(e) => spec_parse_order_at(s@, i as int) == Err::<(OrderView, int), _>(e),
        },
{
    proof {
        reveal_strlit("{");
        assert("{"@ =~= seq!['{']);
    }
    let jw = skip_ws(s, i);
    let j0 = match expect_lit(s, jw, "{") {
        Some(j) => j,
        None => {
            return Err(ParseError::Invalid);
        },
    };
    order_members(s, j0, true, None, None, None, None, None, None, 7)
}

/// Decode a message or request body into an Order: one Order record,
/// members in any order, nothing but whitespace after it. On failure, the
/// error names the first absent member in declaration order, or reports the
/// body as invalid.
pub fn parse_order(s: &str) -> (r: Result<Order, ParseError>)
    ensures
        match r {
            Ok(o) => {
                &&& spec_parse_order(s@) == Ok::<_, ParseError>(o@)
                &&& o@.wf()
            },
            Err(e) => spec_parse_order(s@) == Err::<OrderView, _>(e),
        },
{
    let (o, j) = match parse_order_at(s, 0) {
        Ok(t) => t,
        Err(e) => {
            return Err(e);
        },
    };
    let jw = skip_ws(s, j);
    let n = s.unicode_len();
    if jw == n {
        Ok(o)
    } else {
        Err(ParseError::Invalid)
    }
}

} // verus!
