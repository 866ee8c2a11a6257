//! The participants of the challenge, each known by a passphrase.

use vstd::prelude::*;
use crate::clock::Timestamp;
use crate::text::str_eq;
use crate::user::{Invoice, InvoiceView, UserState, UserStateView};

verus! {

/// A participant.
#[derive(Debug)]
pub struct User {
    pub passphrase: String,
    pub state: UserState,
}

/// What a `User` says.
pub struct UserView {
    pub passphrase: Seq<char>,
    pub state: UserStateView,
}

impl View for User {
    type V = UserView;

    open spec fn view(&self) -> UserView {
        UserView { passphrase: self.passphrase@, state: self.state@ }
    }
}

/// The participants, in the order in which they came.
#[derive(Debug)]
pub struct Users {
    entries: Vec<User>,
}

impl View for Users {
    type V = Seq<UserView>;

    closed spec fn view(&self) -> Seq<UserView> {
        self.entries@.map_values(|user: User| user@)
    }
}

/// Whether no two participants have the same passphrase.
pub open spec fn distinct(users: Seq<UserView>) -> bool {
    forall|i: int, j: int|
        0 <= i < j < users.len() ==> (#[trigger] users[i]).passphrase != (
        #[trigger] users[j]).passphrase
}

/// Whether the passphrase belongs to a participant.
pub open spec fn registered(users: Seq<UserView>, passphrase: Seq<char>) -> bool {
    exists|i: int| 0 <= i < users.len() && (#[trigger] users[i]).passphrase == passphrase
}

/// The state of the participant with the passphrase.
pub open spec fn state_of(users: Seq<UserView>, passphrase: Seq<char>) -> Option<UserStateView> {
    if registered(users, passphrase) {
        let i = choose|i: int|
            0 <= i < users.len() && (#[trigger] users[i]).passphrase == passphrase;
        Some(users[i].state)
    } else {
        None
    }
}

/// Whether an invoice with the payment hash was made out to a participant.
pub open spec fn has_hash(users: Seq<UserView>, payment_hash: Seq<u8>) -> bool {
    exists|i: int| 0 <= i < users.len() && (#[trigger] users[i]).state.has_hash(payment_hash)
}

/// The participants after one more came.
pub open spec fn with_new(users: Seq<UserView>, passphrase: Seq<char>) -> Seq<UserView> {
    users.push(UserView { passphrase, state: UserStateView::New })
}

/// The participants after an invoice was made out to one of them.
pub open spec fn with_invoice(
    users: Seq<UserView>,
    passphrase: Seq<char>,
    invoice: InvoiceView,
    now: Timestamp,
) -> Seq<UserView> {
    users.map_values(
        |user: UserView|
            if user.passphrase == passphrase {
                UserView { passphrase, state: user.state.given(invoice, now) }
            } else {
                user
            },
    )
}

/// The participants after a payment with the given hash came in.
pub open spec fn with_payment(
    users: Seq<UserView>,
    payment_hash: Seq<u8>,
    now: Timestamp,
) -> Seq<UserView> {
    users.map_values(
        |user: UserView|
            if user.state.has_hash(payment_hash) {
                UserView { passphrase: user.passphrase, state: user.state.paid(now) }
            } else {
                user
            },
    )
}

/// The state of a participant is that of the entry with the passphrase.
pub proof fn lemma_state_of(users: Seq<UserView>, i: int)
    requires
        distinct(users),
        0 <= i < users.len(),
    ensures
        registered(users, users[i].passphrase),
        state_of(users, users[i].passphrase) == Some(users[i].state),
{
    let j = choose|j: int|
        0 <= j < users.len() && (#[trigger] users[j]).passphrase == users[i].passphrase;
    assert(i == j);
}

impl Users {
    /// Whether no two participants have the same passphrase.
    pub open spec fn wf(&self) -> bool {
        distinct(self@)
    }

    /// No participants yet.
    pub fn new() -> (res: Users)
        ensures
            res@ == Seq::<UserView>::empty(),
            res.wf(),
    {
        let res = Users { entries: Vec::new() };
        assert(res@ == Seq::<UserView>::empty());
        res
    }

    /// The number of participants.
    pub fn len(&self) -> (res: usize)
        ensures
            res == self@.len(),
    {
        self.entries.len()
    }

    /// The participant who came `i`-th, counted from zero.
    pub fn nth(&self, i: usize) -> (res: &User)
        requires
            i < self@.len(),
        ensures
            res@ == self@[i as int],
    {
        &self.entries[i]
    }

    fn find(&self, passphrase: &str) -> (res: Option<usize>)
        ensures
            match res {
                Some(i) => i < self@.len() && self@[i as int].passphrase == passphrase@,
                None => !registered(self@, passphrase@),
            },
    {
        let mut i: usize = 0;
        while i < self.entries.len()
            invariant
                i <= self.entries.len(),
                forall|j: int| 0 <= j < i ==> (#[trigger] self@[j]).passphrase != passphrase@,
            decreases self.entries.len() - i,
        {
            if str_eq(self.entries[i].passphrase.as_str(), passphrase) {
                return Some(i);
            }
            assert(self@[i as int].passphrase != passphrase@);
            i = i + 1;
        }
        None
    }

    /// Whether the passphrase belongs to a participant.
    pub fn contains(&self, passphrase: &str) -> (res: bool)
        ensures
            res == registered(self@, passphrase@),
    {
        match self.find(passphrase) {
            Some(i) => {
                assert(self@[i as int].passphrase == passphrase@);
                true
            },
            None => false,
        }
    }

    /// The state of the participant with the passphrase.
    pub fn state(&self, passphrase: &str) -> (res: Option<&UserState>)
        requires
            self.wf(),
        ensures
            match res {
                Some(state) => state_of(self@, passphrase@) == Some(state@),
                None => state_of(self@, passphrase@) is None,
            },
    {
        match self.find(passphrase) {
            Some(i) => {
                proof {
                    lemma_state_of(self@, i as int);
                }
                Some(&self.entries[i].state)
            },
            None => None,
        }
    }

    /// Registers a participant, unless the passphrase is taken. Tells whether
    /// it did.
    pub fn register(&mut self, passphrase: &str) -> (res: bool)
        requires
            old(self).wf(),
        ensures
            final(self).wf(),
            res == !registered(old(self)@, passphrase@),
            final(self)@ == if res {
                with_new(old(self)@, passphrase@)
            } else {
                old(self)@
            },
    {
        match self.find(passphrase) {
            Some(i) => {
                assert(self@[i as int].passphrase == passphrase@);
                false
            },
            None => {
                let ghost before = self@;
                let passphrase = passphrase.to_owned();
                self.entries.push(User { passphrase, state: UserState::New });
                assert(self@ == with_new(before, passphrase@));
                true
            },
        }
    }

    /// Records an invoice that was made out at `now` to the participant with
    /// the passphrase.
    pub fn give_invoice_at(&mut self, passphrase: &str, invoice: Invoice, now: Timestamp)
        requires
            old(self).wf(),
        ensures
            final(self).wf(),
            final(self)@ == with_invoice(old(self)@, passphrase@, invoice@, now),
    {
        let ghost before = self@;
        match self.find(passphrase) {
            Some(i) => {
                self.entries[i].state.created_invoice_at(invoice, now);
                assert(self@ == with_invoice(before, passphrase@, invoice@, now));
            },
            None => {
                assert(self@ == with_invoice(before, passphrase@, invoice@, now));
            },
        }
        assert forall|i: int, j: int| 0 <= i < j < self@.len() implies (
        #[trigger] self@[i]).passphrase != (#[trigger] self@[j]).passphrase by {
            assert(before[i].passphrase != before[j].passphrase);
        }
    }

    /// Records a payment that came in at `now` with every participant whose
    /// invoice it pays.
    pub fn settle_at(&mut self, payment_hash: &[u8; 32], now: Timestamp)
        requires
            old(self).wf(),
        ensures
            final(self).wf(),
            final(self)@ == with_payment(old(self)@, payment_hash@, now),
    {
        let ghost before = self@;
        let ghost after = with_payment(before, payment_hash@, now);
        let mut i: usize = 0;
        while i < self.entries.len()
            invariant
                i <= self.entries.len(),
                before == old(self)@,
                after == with_payment(before, payment_hash@, now),
                self@.len() == before.len(),
                forall|j: int| 0 <= j < i ==> self@[j] == after[j],
                forall|j: int| i <= j < before.len() ==> self@[j] == before[j],
            decreases self.entries.len() - i,
        {
            let ghost entry = self@[i as int];
            let ghost all = self@;
            assert(entry == before[i as int]);
            if self.entries[i].state.has_hash(payment_hash) {
                self.entries[i].state.paid_invoice_at(now);
            }
            assert(self@ == all.update(i as int, after[i as int]));
            i = i + 1;
        }
        assert(self@ == after);
        assert forall|i: int, j: int| 0 <= i < j < self@.len() implies (
        #[trigger] self@[i]).passphrase != (#[trigger] self@[j]).passphrase by {
            assert(before[i].passphrase != before[j].passphrase);
        }
    }

    /// Whether an invoice with the payment hash was made out to a participant.
    pub fn knows_hash(&self, payment_hash: &[u8; 32]) -> (res: bool)
        ensures
            res == has_hash(self@, payment_hash@),
    {
        let mut i: usize = 0;
        while i < self.entries.len()
            invariant
                i <= self.entries.len(),
                forall|j: int| 0 <= j < i ==> !(#[trigger] self@[j]).state.has_hash(payment_hash@),
            decreases self.entries.len() - i,
        {
            assert(self@[i as int] == self.entries@[i as int]@);
            if self.entries[i].state.has_hash(payment_hash) {
                return true;
            }
            i = i + 1;
        }
        false
    }
}

/// Whoever stands in the list under a passphrase is registered under it, and
/// their state is the one that is told for it. For a passphrase that stands
/// nowhere in the list none is told.
pub proof fn law_told(users: Seq<UserView>, i: int, passphrase: Seq<char>)
    requires
        0 <= i < users.len(),
        users.map_values(|user: UserView| user.passphrase).no_duplicates(),
    ensures
        registered(users, users[i].passphrase),
        state_of(users, users[i].passphrase) == Some(users[i].state),
        (forall|j: int| 0 <= j < users.len() ==> (#[trigger] users[j]).passphrase != passphrase)
            ==> !registered(users, passphrase) && state_of(users, passphrase) is None,
{
    law_distinct(users);
    lemma_state_of(users, i);
}

/// Nobody is registered, and no state is told, where there are no
/// participants.
pub proof fn law_nobody(passphrase: Seq<char>, payment_hash: Seq<u8>)
    ensures
        !registered(Seq::empty(), passphrase),
        state_of(Seq::empty(), passphrase) is None,
        !has_hash(Seq::empty(), payment_hash),
        distinct(Seq::empty()),
{
}

/// Participants are told apart by their passphrases.
pub proof fn law_distinct(users: Seq<UserView>)
    ensures
        distinct(users) <==> users.map_values(|user: UserView| user.passphrase).no_duplicates(),
{
    let names = users.map_values(|user: UserView| user.passphrase);
    if names.no_duplicates() {
        assert forall|i: int, j: int| 0 <= i < j < users.len() implies (
        #[trigger] users[i]).passphrase != (#[trigger] users[j]).passphrase by {
            assert(names[i] != names[j]);
        }
    }
    if distinct(users) {
        assert forall|i: int, j: int|
            0 <= i < names.len() && 0 <= j < names.len() && i != j implies names[i] != names[j] by {
            if i < j {
                assert(users[i].passphrase != users[j].passphrase);
            } else {
                assert(users[j].passphrase != users[i].passphrase);
            }
        }
    }
}

/// A hash is known through any participant, whatever their place, who was
/// given an invoice with it, paid or not, and through nobody else.
pub proof fn law_known_hashes(
    users: Seq<UserView>,
    i: int,
    invoice: InvoiceView,
    t1: Timestamp,
    t2: Timestamp,
    payment_hash: Seq<u8>,
)
    requires
        0 <= i < users.len(),
    ensures
        users[i].state == (UserStateView::CreatedInvoice { invoice, time_created: t1 }) ==> has_hash(
            users,
            invoice.payment_hash,
        ),
        users[i].state == (UserStateView::PaidInvoice { invoice, time_created: t1, time_paid: t2 })
            ==> has_hash(users, invoice.payment_hash),
        has_hash(users, payment_hash) ==> exists|j: int|
            0 <= j < users.len() && match (#[trigger] users[j]).state {
                UserStateView::New => false,
                UserStateView::CreatedInvoice { invoice, .. } => invoice.payment_hash
                    == payment_hash,
                UserStateView::PaidInvoice { invoice, .. } => invoice.payment_hash == payment_hash,
            },
{
    if has_hash(users, payment_hash) {
        let j = choose|j: int|
            0 <= j < users.len() && (#[trigger] users[j]).state.has_hash(payment_hash);
        assert(users[j].state.has_hash(payment_hash));
    }
    if users[i].state == (UserStateView::CreatedInvoice { invoice, time_created: t1 }) || users[i].state
        == (UserStateView::PaidInvoice { invoice, time_created: t1, time_paid: t2 }) {
        assert(users[i].state.has_hash(invoice.payment_hash));
    }
}

/// Whoever registers comes last, and the others keep place and state.
pub proof fn law_comes_last(users: Seq<UserView>, passphrase: Seq<char>, i: int)
    requires
        0 <= i < users.len(),
    ensures
        with_new(users, passphrase).len() == users.len() + 1,
        with_new(users, passphrase)[i] == users[i],
        with_new(users, passphrase)[users.len() as int] == (UserView {
            passphrase,
            state: UserStateView::New,
        }),
        with_new(Seq::empty(), passphrase) == seq![
            UserView { passphrase, state: UserStateView::New },
        ],
{
}

/// An invoice is recorded, with its time, with whoever has the passphrase and
/// has none yet, whatever their place. The others keep place and state.
pub proof fn law_invoice_recorded(
    users: Seq<UserView>,
    passphrase: Seq<char>,
    invoice: InvoiceView,
    now: Timestamp,
    i: int,
)
    requires
        0 <= i < users.len(),
    ensures
        with_invoice(users, passphrase, invoice, now).len() == users.len(),
        with_invoice(users, passphrase, invoice, now)[i].passphrase == users[i].passphrase,
        users[i].passphrase == passphrase && users[i].state == UserStateView::New ==> with_invoice(
            users,
            passphrase,
            invoice,
            now,
        )[i].state == (UserStateView::CreatedInvoice { invoice, time_created: now }),
        users[i].passphrase != passphrase || users[i].state != UserStateView::New ==> with_invoice(
            users,
            passphrase,
            invoice,
            now,
        )[i].state == users[i].state,
        with_invoice(Seq::empty(), passphrase, invoice, now) == Seq::<UserView>::empty(),
{
    assert(with_invoice(Seq::empty(), passphrase, invoice, now) == Seq::<UserView>::empty());
}

/// A payment is recorded, with its time, with everybody whose open invoice has
/// the hash, whatever their place. The others keep place and state.
pub proof fn law_payment_recorded(
    users: Seq<UserView>,
    payment_hash: Seq<u8>,
    now: Timestamp,
    i: int,
    invoice: InvoiceView,
    t1: Timestamp,
)
    requires
        0 <= i < users.len(),
    ensures
        with_payment(users, payment_hash, now).len() == users.len(),
        with_payment(users, payment_hash, now)[i].passphrase == users[i].passphrase,
        users[i].state == (UserStateView::CreatedInvoice { invoice, time_created: t1 })
            && invoice.payment_hash == payment_hash ==> with_payment(users, payment_hash, now)[i].state
            == (UserStateView::PaidInvoice { invoice, time_created: t1, time_paid: now }),
        users[i].state == (UserStateView::CreatedInvoice { invoice, time_created: t1 })
            && invoice.payment_hash != payment_hash ==> with_payment(users, payment_hash, now)[i].state
            == users[i].state,
        users[i].state is New || users[i].state is PaidInvoice ==> with_payment(
            users,
            payment_hash,
            now,
        )[i].state == users[i].state,
        with_payment(Seq::empty(), payment_hash, now) == Seq::<UserView>::empty(),
{
    assert(with_payment(Seq::empty(), payment_hash, now) == Seq::<UserView>::empty());
}

} // verus!
