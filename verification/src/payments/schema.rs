use vstd::prelude::*;

verus! {

/// Pagination options of a listing request.
#[derive(Debug, Clone)]
pub struct FilterOptions {
    pub page: Option<usize>,
    pub limit: Option<usize>,
}

/// Path parameter of a single-record request.
#[derive(Debug, Clone)]
pub struct ParamOptions {
    pub id: String,
}

/// The payment-creation command handed to the domain capability.
///
/// Every field is resolved: the wire request's optional fields have already
/// been replaced by their type defaults (see the normalization step of the
/// message pipeline). The price travels as the raw bit pattern of the wire
/// number and the identifiers as the 128-bit values of their identifiers,
/// so that the verified core never touches floating point or an outside
/// identifier type; the unverified edge converts both ways.
#[derive(Debug, Clone)]
pub struct CreatePaymentSchema {
    pub name: String,
    pub description: String,
    pub price_bits: u64,
    pub user_id: u128,
    pub category_id: u128,
}

/// Mathematical value of a [`CreatePaymentSchema`].
#[verifier::ext_equal]
pub ghost struct CreatePaymentSchemaView {
    pub name: Seq<char>,
    pub description: Seq<char>,
    pub price_bits: u64,
    pub user_id: u128,
    pub category_id: u128,
}

impl View for CreatePaymentSchema {
    type V = CreatePaymentSchemaView;

    open spec fn view(&self) -> CreatePaymentSchemaView {
        CreatePaymentSchemaView {
            name: self.name@,
            description: self.description@,
            price_bits: self.price_bits,
            user_id: self.user_id,
            category_id: self.category_id,
        }
    }
}

/// Payload of a payment-update request; the price travels as raw bits, as in
/// [`CreatePaymentSchema`].
#[derive(Debug, Clone)]
pub struct UpdatePaymentSchema {
    pub name: String,
    pub price_bits: u64,
    pub description: String,
}

} // verus!
