use vstd::prelude::*;

use crate::payments::schema::CreatePaymentSchema;
use crate::payments::schema::CreatePaymentSchemaView;

verus! {

/// A payment event as it arrives on the wire, after JSON decoding.
///
/// Only the name is required; every other field may be absent from the
/// payload. The price travels as the raw bit pattern of the wire number and
/// the identifiers as the 128-bit values of their identifiers, so that the
/// verified core never touches floating point or an outside identifier
/// type; the unverified edge converts both ways.
#[derive(Debug, Clone)]
pub struct PaymentMessage {
    pub name: String,
    pub description: Option<String>,
    pub price_bits: Option<u64>,
    pub user_id: Option<u128>,
    pub category_id: Option<u128>,
}

/// Mathematical value of a [`PaymentMessage`].
#[verifier::ext_equal]
pub ghost struct PaymentMessageView {
    pub name: Seq<char>,
    pub description: Option<Seq<char>>,
    pub price_bits: Option<u64>,
    pub user_id: Option<u128>,
    pub category_id: Option<u128>,
}

impl View for PaymentMessage {
    type V = PaymentMessageView;

    open spec fn view(&self) -> PaymentMessageView {
        PaymentMessageView {
            name: self.name@,
            description: match self.description {
                Some(d) => Some(d@),
                None => None,
            },
            price_bits: self.price_bits,
            user_id: self.user_id,
            category_id: self.category_id,
        }
    }
}

/// The command a wire request normalizes to: each absent optional field is
/// replaced by the type default of its column — the empty string for the
/// description, the zero price (whose bit pattern is zero), and the nil,
/// all-zero identifier for the two identifiers.
pub open spec fn normalized(m: PaymentMessageView) -> CreatePaymentSchemaView {
    CreatePaymentSchemaView {
        name: m.name,
        description: match m.description {
            Some(d) => d,
            None => Seq::<char>::empty(),
        },
        price_bits: match m.price_bits {
            Some(p) => p,
            None => 0u64,
        },
        user_id: match m.user_id {
            Some(u) => u,
            None => 0u128,
        },
        category_id: match m.category_id {
            Some(c) => c,
            None => 0u128,
        },
    }
}

impl PaymentMessage {
    /// Resolve every optional field to its type default and produce the
    /// creation command. A request is never rejected for missing optional
    /// fields: normalization is total.
    pub fn normalize(self) -> (cmd: CreatePaymentSchema)
        ensures
            cmd@ == normalized(self@),
    {
        let description: String = match self.description {
            Some(d) => d,
            None => String::new(),
        };
        let price_bits: u64 = match self.price_bits {
            Some(p) => p,
            None => 0,
        };
        let user_id: u128 = match self.user_id {
            Some(u) => u,
            None => 0,
        };
        let category_id: u128 = match self.category_id {
            Some(c) => c,
            None => 0,
        };
        let cmd = CreatePaymentSchema {
            name: self.name,
            description,
            price_bits,
            user_id,
            category_id,
        };
        proof {
            assert(cmd@ =~= normalized(self@));
        }
        cmd
    }
}

} // verus!
