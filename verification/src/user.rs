//! Where a participant of the challenge stands.

use vstd::prelude::*;
use crate::clock::{now, Duration, Timestamp};

verus! {

/// A lightning invoice: its text and the hash that its payment reveals the
/// preimage of.
#[derive(Debug, PartialEq, Eq)]
pub struct Invoice {
    pub text: String,
    pub payment_hash: [u8; 32],
}

/// What an `Invoice` says.
pub struct InvoiceView {
    pub text: Seq<char>,
    pub payment_hash: Seq<u8>,
}

impl View for Invoice {
    type V = InvoiceView;

    open spec fn view(&self) -> InvoiceView {
        InvoiceView { text: self.text@, payment_hash: self.payment_hash@ }
    }
}

impl Clone for Invoice {
    fn clone(&self) -> (res: Invoice)
        ensures
            res@ == self@,
    {
        Invoice { text: self.text.clone(), payment_hash: self.payment_hash }
    }
}

impl Invoice {
    /// Whether the invoice has the given payment hash.
    pub fn has_hash(&self, payment_hash: &[u8; 32]) -> (res: bool)
        ensures
            res == (self@.payment_hash == payment_hash@),
    {
        let mut i: usize = 0;
        while i < 32
            invariant
                i <= 32,
                forall|j: int| 0 <= j < i ==> self.payment_hash@[j] == payment_hash@[j],
            decreases 32 - i,
        {
            if self.payment_hash[i] != payment_hash[i] {
                assert(self.payment_hash@[i as int] != payment_hash@[i as int]);
                return false;
            }
            i = i + 1;
        }
        assert(self@.payment_hash == payment_hash@);
        true
    }
}

/// The state of a participant: registered, given an invoice, or done.
#[derive(Debug, Clone, PartialEq, Eq)]
pub enum UserState {
    New,
    CreatedInvoice { invoice: Invoice, time_created: Timestamp },
    PaidInvoice { invoice: Invoice, time_created: Timestamp, time_paid: Timestamp },
}

/// What a `UserState` says.
pub enum UserStateView {
    New,
    CreatedInvoice { invoice: InvoiceView, time_created: Timestamp },
    PaidInvoice { invoice: InvoiceView, time_created: Timestamp, time_paid: Timestamp },
}

impl View for UserState {
    type V = UserStateView;

    open spec fn view(&self) -> UserStateView {
        match *self {
            UserState::New => UserStateView::New,
            UserState::CreatedInvoice { invoice, time_created } => UserStateView::CreatedInvoice {
                invoice: invoice@,
                time_created,
            },
            UserState::PaidInvoice { invoice, time_created, time_paid } => {
                UserStateView::PaidInvoice { invoice: invoice@, time_created, time_paid }
            },
        }
    }
}

impl UserStateView {
    /// The state after an invoice was made out at `now`: a participant gets
    /// one invoice and keeps it.
    pub open spec fn given(self, invoice: InvoiceView, now: Timestamp) -> UserStateView {
        match self {
            UserStateView::New => UserStateView::CreatedInvoice { invoice, time_created: now },
            _ => self,
        }
    }

    /// The state after the invoice was paid at `now`: the first payment of an
    /// open invoice counts.
    pub open spec fn paid(self, now: Timestamp) -> UserStateView {
        match self {
            UserStateView::CreatedInvoice { invoice, time_created } => {
                UserStateView::PaidInvoice { invoice, time_created, time_paid: now }
            },
            _ => self,
        }
    }

    /// The invoice that was made out, paid or not.
    pub open spec fn invoice(self) -> Option<InvoiceView> {
        match self {
            UserStateView::New => None,
            UserStateView::CreatedInvoice { invoice, .. } => Some(invoice),
            UserStateView::PaidInvoice { invoice, .. } => Some(invoice),
        }
    }

    /// The time between invoice and payment, if the clock did not go back.
    pub open spec fn time_diff(self) -> Option<Duration> {
        match self {
            UserStateView::PaidInvoice { time_created, time_paid, .. } => time_paid.since(
                time_created,
            ),
            _ => None,
        }
    }

    /// Whether the state has an invoice with the given payment hash.
    pub open spec fn has_hash(self, payment_hash: Seq<u8>) -> bool {
        match self.invoice() {
            Some(invoice) => invoice.payment_hash == payment_hash,
            None => false,
        }
    }
}

impl UserState {
    /// Records an invoice that was made out at `now`.
    pub fn created_invoice_at(&mut self, invoice: Invoice, now: Timestamp)
        ensures
            final(self)@ == old(self)@.given(invoice@, now),
    {
        if let UserState::New = self {
            *self = UserState::CreatedInvoice { invoice, time_created: now };
        }
    }

    /// Records an invoice that was made out just now.
    pub fn created_invoice(&mut self, invoice: Invoice)
        ensures
            exists|now: Timestamp|
                now.is_normal() && final(self)@ == #[trigger] old(self)@.given(invoice@, now),
    {
        let time_created = now();
        self.created_invoice_at(invoice, time_created);
    }

    /// Records that the invoice was paid at `now`.
    pub fn paid_invoice_at(&mut self, now: Timestamp)
        ensures
            final(self)@ == old(self)@.paid(now),
    {
        if let UserState::CreatedInvoice { invoice, time_created } = self {
            let invoice = invoice.clone();
            let time_created = *time_created;
            *self = UserState::PaidInvoice { invoice, time_created, time_paid: now };
        }
    }

    /// Records that the invoice was paid just now.
    pub fn paid_invoice(&mut self)
        ensures
            exists|now: Timestamp|
                now.is_normal() && final(self)@ == #[trigger] old(self)@.paid(now),
    {
        let time_paid = now();
        self.paid_invoice_at(time_paid);
    }

    /// The invoice that was made out, paid or not.
    pub fn invoice(&self) -> (res: Option<&Invoice>)
        ensures
            match res {
                Some(invoice) => self@.invoice() == Some(invoice@),
                None => self@.invoice() is None,
            },
    {
        match self {
            UserState::CreatedInvoice { invoice, .. } => Some(invoice),
            UserState::PaidInvoice { invoice, .. } => Some(invoice),
            UserState::New => None,
        }
    }

    /// The time between invoice and payment; nothing before the payment, and
    /// nothing if the clock went back in between.
    pub fn time_diff(&self) -> (res: Option<Duration>)
        ensures
            res == self@.time_diff(),
    {
        match self {
            UserState::PaidInvoice { time_created, time_paid, .. } => time_paid.duration_since(
                time_created,
            ),
            _ => None,
        }
    }

    /// Whether the state has an invoice with the given payment hash.
    pub fn has_hash(&self, payment_hash: &[u8; 32]) -> (res: bool)
        ensures
            res == self@.has_hash(payment_hash@),
    {
        match self.invoice() {
            Some(invoice) => invoice.has_hash(payment_hash),
            None => false,
        }
    }
}

/// From being new a participant is given an invoice at some time, and from
/// there it counts as paid at some time; nothing else changes where they
/// stand.
pub proof fn law_standing(
    invoice: InvoiceView,
    other: InvoiceView,
    t1: Timestamp,
    t2: Timestamp,
    now: Timestamp,
)
    ensures
        UserStateView::New.given(invoice, now) == (UserStateView::CreatedInvoice {
            invoice,
            time_created: now,
        }),
        UserStateView::New.paid(now) == UserStateView::New,
        (UserStateView::CreatedInvoice { invoice, time_created: t1 }).given(other, now) == (
        UserStateView::CreatedInvoice { invoice, time_created: t1 }),
        (UserStateView::CreatedInvoice { invoice, time_created: t1 }).paid(now) == (
        UserStateView::PaidInvoice { invoice, time_created: t1, time_paid: now }),
        (UserStateView::PaidInvoice { invoice, time_created: t1, time_paid: t2 }).given(other, now)
            == (UserStateView::PaidInvoice { invoice, time_created: t1, time_paid: t2 }),
        (UserStateView::PaidInvoice { invoice, time_created: t1, time_paid: t2 }).paid(now) == (
        UserStateView::PaidInvoice { invoice, time_created: t1, time_paid: t2 }),
{
}

/// What is known of a participant: the invoice from when it is given, its
/// hash as that of the invoice, and the time from invoice to payment once that
/// came in.
pub proof fn law_known(invoice: InvoiceView, t1: Timestamp, t2: Timestamp, payment_hash: Seq<u8>)
    ensures
        UserStateView::New.invoice() is None,
        UserStateView::New.time_diff() is None,
        !UserStateView::New.has_hash(payment_hash),
        (UserStateView::CreatedInvoice { invoice, time_created: t1 }).invoice() == Some(invoice),
        (UserStateView::CreatedInvoice { invoice, time_created: t1 }).time_diff() is None,
        (UserStateView::CreatedInvoice { invoice, time_created: t1 }).has_hash(payment_hash) <==> (
        invoice.payment_hash == payment_hash),
        (UserStateView::PaidInvoice { invoice, time_created: t1, time_paid: t2 }).invoice() == Some(
            invoice,
        ),
        (UserStateView::PaidInvoice { invoice, time_created: t1, time_paid: t2 }).has_hash(
            payment_hash,
        ) <==> (invoice.payment_hash == payment_hash),
        t1.at() <= t2.at() ==> (UserStateView::PaidInvoice {
            invoice,
            time_created: t1,
            time_paid: t2,
        }).time_diff() == Some(Duration { nanos: (t2.at() - t1.at()) as u128 }),
        t1.at() > t2.at() ==> (UserStateView::PaidInvoice {
            invoice,
            time_created: t1,
            time_paid: t2,
        }).time_diff() is None,
{
}

} // verus!
