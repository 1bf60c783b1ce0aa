//! The Order data model: the canonical unit of work flowing through every
//! stage of the relay pipeline. Every field is mandatory; an Order value can
//! only exist complete.

use vstd::prelude::*;

verus! {

/// Physical measurements of the ordered item. Carried as numbers on the
/// wire and converted to text in the flattened store record.
#[derive(Debug)]
pub struct Measurements {
    pub length: usize,
    pub breadth: usize,
}

/// Nested details of an order.
#[derive(Debug)]
pub struct OrderDetails {
    pub clothingtype: String,
    pub quantity: String,
    pub measurement: Measurements,
}

/// The canonical unit of work. Constructed once at ingress, serialized for
/// broker transport, reconstructed at the relay listener, and flattened at
/// the persistence sink. Amounts and quantities are transported as text;
/// no arithmetic is ever performed on them.
#[derive(Debug)]
pub struct Order {
    pub orderid: String,
    pub resellerid: String,
    pub payment_status: String,
    pub payment_amount: String,
    pub details: OrderDetails,
    pub timestamp: String,
}

/// Mathematical model of `Measurements`.
#[verifier::ext_equal]
pub ghost struct MeasurementsView {
    pub length: nat,
    pub breadth: nat,
}

/// Mathematical model of `OrderDetails`.
#[verifier::ext_equal]
pub ghost struct OrderDetailsView {
    pub clothingtype: Seq<char>,
    pub quantity: Seq<char>,
    pub measurement: MeasurementsView,
}

/// Mathematical model of `Order`.
#[verifier::ext_equal]
pub ghost struct OrderView {
    pub orderid: Seq<char>,
    pub resellerid: Seq<char>,
    pub payment_status: Seq<char>,
    pub payment_amount: Seq<char>,
    pub details: OrderDetailsView,
    pub timestamp: Seq<char>,
}

impl View for Measurements {
    type V = MeasurementsView;

    open spec fn view(&self) -> MeasurementsView {
        MeasurementsView { length: self.length as nat, breadth: self.breadth as nat }
    }
}

impl View for OrderDetails {
    type V = OrderDetailsView;

    open spec fn view(&self) -> OrderDetailsView {
        OrderDetailsView {
            clothingtype: self.clothingtype@,
            quantity: self.quantity@,
            measurement: self.measurement@,
        }
    }
}

impl View for Order {
    type V = OrderView;

    open spec fn view(&self) -> OrderView {
        OrderView {
            orderid: self.orderid@,
            resellerid: self.resellerid@,
            payment_status: self.payment_status@,
            payment_amount: self.payment_amount@,
            details: self.details@,
            timestamp: self.timestamp@,
        }
    }
}

/// A character the wire format carries verbatim inside a JSON string:
/// no quote, no backslash, no control character.
pub open spec fn plain_char(c: char) -> bool {
    c != '"' && c != '\\' && (c as u32) >= 32
}

/// A text field the wire format can carry verbatim.
pub open spec fn plain(s: Seq<char>) -> bool {
    forall|i: int| 0 <= i < s.len() ==> plain_char(s[i])
}

impl OrderView {
    /// Well-formedness: the order id is non-empty, every text field is
    /// carried verbatim on the wire, and the measurements are
    /// machine-representable.
    pub open spec fn wf(self) -> bool {
        &&& self.orderid.len() > 0
        &&& plain(self.orderid)
        &&& plain(self.resellerid)
        &&& plain(self.payment_status)
        &&& plain(self.payment_amount)
        &&& plain(self.details.clothingtype)
        &&& plain(self.details.quantity)
        &&& plain(self.timestamp)
        &&& self.details.measurement.length <= usize::MAX
        &&& self.details.measurement.breadth <= usize::MAX
    }
}

} // verus!
