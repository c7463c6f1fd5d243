//! Paid ("boosted") chat messages: the emphasis tiers and what a settled
//! payment releases.
use vstd::prelude::*;
use crate::text::{parse_scaled, parse_scaled_spec};
use crate::types::{BoostMessageInvoice, MessageExtra, Publication, WsPacket};

verus! {

/// Number of decimal places between a bitcoin and its smallest unit.
pub const SATOSHI_DIGITS: usize = 8;

/// Display emphasis, by the first tier whose bound the amount does not exceed.
pub open spec fn boost_duration_spec(amount: u64) -> u64 {
    if amount <= 1000 {
        20
    } else if amount <= 10000 {
        30
    } else if amount <= 25000 {
        60
    } else if amount <= 50000 {
        100
    } else {
        120
    }
}

/// The display-emphasis duration of a paid message of `amount` smallest units.
pub fn boost_duration(amount: u64) -> (r: u64)
    ensures
        r == boost_duration_spec(amount),
{
    if amount <= 1000 {
        20
    } else if amount <= 10000 {
        30
    } else if amount <= 25000 {
        60
    } else if amount <= 50000 {
        100
    } else {
        120
    }
}

/// Payment states reported by the payment processor.
#[derive(Clone, Copy, Debug, PartialEq, Eq)]
pub enum InvoiceStatus {
    New,
    Paid,
    Confirmed,
    Completed,
    Expired,
    Invalid,
}

pub open spec fn is_settled(s: InvoiceStatus) -> bool {
    s is Paid || s is Confirmed || s is Completed
}

/// The invoice part of a payment notification.
#[derive(Clone, Debug, PartialEq, Eq)]
pub struct InvoiceNotice {
    pub id: String,
    pub status: InvoiceStatus,
    /// Amount paid, in bitcoin, as decimal text.
    pub btc_paid: String,
}

#[derive(Clone, Debug, PartialEq, Eq)]
pub struct WebhookEvent {
    pub code: usize,
    pub name: String,
}

/// A payment notification.
#[derive(Clone, Debug, PartialEq, Eq)]
pub struct WebhookData {
    pub event: WebhookEvent,
    pub data: InvoiceNotice,
}

impl WebhookData {
    /// The id of the invoice to consume: present exactly when the payment settled.
    pub fn settled_invoice(&self) -> (r: Option<String>)
        ensures
            r is Some <==> is_settled(self.data.status),
            r is Some ==> r->0@ == self.data.id@,
    {
        match self.data.status {
            InvoiceStatus::Paid | InvoiceStatus::Confirmed | InvoiceStatus::Completed => Some(
                self.data.id.clone(),
            ),
            _ => None,
        }
    }
}

/// The message a paid invoice releases, for `amount` smallest units.
pub open spec fn boosted_publication(invoice: BoostMessageInvoice, amount: u64) -> Publication {
    Publication {
        room: invoice.room,
        packet: WsPacket::ServerMessage {
            from: invoice.from,
            message: invoice.message,
            extra: Some(
                MessageExtra { amount, timestamp: 0, duration: boost_duration_spec(amount) },
            ),
        },
    }
}

/// What a confirmation publishes, given the invoice it took from the store.
pub open spec fn confirmation_spec(taken: Option<BoostMessageInvoice>, btc_paid: Seq<char>) -> Option<
    Publication,
> {
    match taken {
        None => None,
        Some(invoice) => match parse_scaled_spec(btc_paid, SATOSHI_DIGITS as nat) {
            Some(amount) => Some(boosted_publication(invoice, amount)),
            None => None,
        },
    }
}

/// Turns a settled payment into the boosted message it pays for. `taken` is
/// what the atomic fetch-and-delete of the invoice id returned: nothing when
/// the invoice was consumed before or never existed, and then nothing is
/// published. An amount that is not decimal text, or too large, publishes
/// nothing either.
pub fn confirm_payment(taken: Option<BoostMessageInvoice>, btc_paid: &str) -> (r: Option<
    Publication,
>)
    ensures
        r == confirmation_spec(taken, btc_paid@),
{
    match taken {
        None => None,
        Some(invoice) => match parse_scaled(btc_paid, SATOSHI_DIGITS) {
            Some(amount) => {
                let duration = boost_duration(amount);
                Some(
                    Publication {
                        room: invoice.room,
                        packet: WsPacket::ServerMessage {
                            from: invoice.from,
                            message: invoice.message,
                            extra: Some(MessageExtra { amount, timestamp: 0, duration }),
                        },
                    },
                )
            },
            None => None,
        },
    }
}

/// Fetch-and-delete on the stored invoices, keyed by id, as one step.
pub open spec fn take_invoice(
    store: Map<Seq<char>, BoostMessageInvoice>,
    id: Seq<char>,
) -> (Map<Seq<char>, BoostMessageInvoice>, Option<BoostMessageInvoice>) {
    if store.contains_key(id) {
        (store.remove(id), Some(store[id]))
    } else {
        (store, None)
    }
}

/// Confirming the same invoice twice publishes once: the second fetch-and-delete
/// finds nothing, and a confirmation that took nothing publishes nothing.
pub proof fn second_confirmation_is_noop(
    store: Map<Seq<char>, BoostMessageInvoice>,
    id: Seq<char>,
    btc_paid: Seq<char>,
)
    ensures
        take_invoice(take_invoice(store, id).0, id).1 is None,
        confirmation_spec(take_invoice(take_invoice(store, id).0, id).1, btc_paid) is None,
        !take_invoice(store, id).0.contains_key(id),
{
}

} // verus!
