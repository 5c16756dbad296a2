//! The order details a user gave for a payment.
use vstd::prelude::*;

verus! {

/// A shipping address.
#[derive(Clone, Debug, PartialEq, Eq)]
pub struct ShippingAddress {
    pub country_code: String,
    pub state: String,
    pub city: String,
    pub street_line1: String,
    pub street_line2: String,
    pub post_code: String,
}

/// The information a user gave with an order; every field is optional.
#[derive(Clone, Debug, PartialEq, Eq)]
pub struct OrderInfo {
    /// The user's e-mail.
    pub email: Option<String>,
    /// The user's name.
    pub name: Option<String>,
    /// The user's phone number.
    pub phone_number: Option<String>,
    /// The user's shipping address.
    pub shipping_address: Option<ShippingAddress>,
}

impl Default for OrderInfo {
    fn default() -> (r: OrderInfo)
        ensures
            r.email is None,
            r.name is None,
            r.phone_number is None,
            r.shipping_address is None,
    {
        OrderInfo { email: None, name: None, phone_number: None, shipping_address: None }
    }
}

impl OrderInfo {
    /// Sets the user's e-mail.
    pub fn with_email(self, value: String) -> (r: Self)
        ensures
            r == (OrderInfo { email: Some(value), ..self }),
    {
        OrderInfo { email: Some(value), ..self }
    }

    /// Sets the user's name.
    pub fn with_name(self, value: String) -> (r: Self)
        ensures
            r == (OrderInfo { name: Some(value), ..self }),
    {
        OrderInfo { name: Some(value), ..self }
    }

    /// Sets the user's phone number.
    pub fn with_phone_number(self, value: String) -> (r: Self)
        ensures
            r == (OrderInfo { phone_number: Some(value), ..self }),
    {
        OrderInfo { phone_number: Some(value), ..self }
    }

    /// Sets the user's shipping address.
    pub fn with_shipping_address(self, value: ShippingAddress) -> (r: Self)
        ensures
            r == (OrderInfo { shipping_address: Some(value), ..self }),
    {
        OrderInfo { shipping_address: Some(value), ..self }
    }
}

} // verus!
