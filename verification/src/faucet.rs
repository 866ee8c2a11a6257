//! The faucet: what it knows, and how it answers a request.

use vstd::prelude::*;
use crate::clock::{now, Timestamp};
use crate::leaderboard::{board_text, has_known_times, leaderboard, times_known};
use crate::pages::{
    bad_peer, bad_peer_text, challenge_done, challenge_done_text, challenge_open,
    challenge_open_text, request_error, request_error_text, OWN_INVOICE,
};
use crate::parse::{address_error, check_address, payment_hash_of, readable_hash};
use crate::passphrase::{generate_passphrase, is_passphrase, join_words, passphrase_text};
use crate::peer::{convert_peer_info, peer_of, PublicKey, SocketAddress, SocketAddressView};
use crate::text::{pieces, split, str_eq, texts};
use crate::user::{Invoice, UserStateView};
use crate::users::{
    distinct, has_hash, registered, state_of, with_invoice, with_new, with_payment, Users, UserView,
};

verus! {

/// The amount of an invoice of the challenge.
pub const INVOICE_MSAT: u64 = 10_000_000;

/// The time for which an invoice of the challenge can be paid.
pub const INVOICE_EXPIRY_SECS: u32 = 7200;

/// What is to be done about a request.
#[derive(Debug, PartialEq, Eq)]
pub enum Step {
    /// Show what the faucet can be asked for.
    Usage,
    /// Answer with a message.
    Answer(String),
    /// Send coins to a bitcoin address.
    SendToAddress { address: String, sats: u64 },
    /// Register a new participant.
    Register,
    /// Make out an invoice to a participant.
    CreateInvoice { passphrase: String, amount_msat: u64, expiry_secs: u32 },
    /// Open a channel to a peer, which was named as `peer`.
    OpenChannel { key: PublicKey, address: SocketAddress, sats: u64, peer: String },
    /// Answer with a fresh address for funding the faucet.
    FundingAddress,
    /// Answer with the id of the faucet's node.
    NodeId,
    /// Answer with the leaderboard.
    Leaderboard,
    /// Pay an invoice.
    PayInvoice { invoice: String },
}

/// What a `Step` says.
pub enum StepView {
    Usage,
    Answer(Seq<char>),
    SendToAddress { address: Seq<char>, sats: u64 },
    Register,
    CreateInvoice { passphrase: Seq<char>, amount_msat: u64, expiry_secs: u32 },
    OpenChannel { key: Seq<u8>, address: SocketAddressView, sats: u64, peer: Seq<char> },
    FundingAddress,
    NodeId,
    Leaderboard,
    PayInvoice { invoice: Seq<char> },
}

impl View for Step {
    type V = StepView;

    open spec fn view(&self) -> StepView {
        match *self {
            Step::Usage => StepView::Usage,
            Step::Answer(message) => StepView::Answer(message@),
            Step::SendToAddress { address, sats } => StepView::SendToAddress {
                address: address@,
                sats,
            },
            Step::Register => StepView::Register,
            Step::CreateInvoice { passphrase, amount_msat, expiry_secs } => {
                StepView::CreateInvoice { passphrase: passphrase@, amount_msat, expiry_secs }
            },
            Step::OpenChannel { key, address, sats, peer } => StepView::OpenChannel {
                key: key@,
                address: address@,
                sats,
                peer: peer@,
            },
            Step::FundingAddress => StepView::FundingAddress,
            Step::NodeId => StepView::NodeId,
            Step::Leaderboard => StepView::Leaderboard,
            Step::PayInvoice { invoice } => StepView::PayInvoice { invoice: invoice@ },
        }
    }
}

/// The faucet.
#[derive(Debug)]
pub struct FaucetSvc {
    sats_per_request: u64,
    users: Users,
    wordlist: Vec<String>,
}

/// What a `FaucetSvc` knows.
pub struct FaucetView {
    pub sats_per_request: u64,
    pub users: Seq<UserView>,
    pub words: Seq<Seq<char>>,
}

impl View for FaucetSvc {
    type V = FaucetView;

    closed spec fn view(&self) -> FaucetView {
        FaucetView {
            sats_per_request: self.sats_per_request,
            users: self.users@,
            words: texts(self.wordlist@),
        }
    }
}

/// Whether a new participant could be given the passphrase: it is made of
/// words of the list, and nobody has it.
pub open spec fn is_free(faucet: FaucetView, passphrase: Seq<char>) -> bool {
    is_passphrase(passphrase, faucet.words) && !registered(faucet.users, passphrase)
}

/// Whether `passphrase` is free, made of the words at the places `i`, `j` and
/// `k`, and all are taken that are made of words at earlier places.
pub open spec fn is_first_free(
    faucet: FaucetView,
    passphrase: Seq<char>,
    i: int,
    j: int,
    k: int,
) -> bool {
    let words = faucet.words;
    &&& 0 <= i < words.len() && 0 <= j < words.len() && 0 <= k < words.len()
    &&& passphrase == passphrase_text(words[i], words[j], words[k])
    &&& !registered(faucet.users, passphrase)
    &&& forall|a: int, b: int, c: int|
        {
            &&& 0 <= a < words.len() && 0 <= b < words.len() && 0 <= c < words.len()
            &&& a < i || (a == i && (b < j || (b == j && c < k)))
        } ==> registered(faucet.users, #[trigger] passphrase_text(words[a], words[b], words[c]))
}

/// The step for a request of coins, given the error in the address.
pub open spec fn sats_step(
    sats: u64,
    path: Seq<char>,
    address: Seq<char>,
    error: Option<Seq<char>>,
) -> StepView {
    match error {
        Some(err) => StepView::Answer(request_error_text(err, path)),
        None => StepView::SendToAddress { address, sats },
    }
}

/// The step for a request that names nothing but an address, given the error
/// in it.
pub open spec fn bare_step(sats: u64, address: Seq<char>, error: Option<Seq<char>>) -> StepView {
    match error {
        Some(_) => StepView::Usage,
        None => StepView::SendToAddress { address, sats },
    }
}

/// The step for a participant who asks for the challenge, given their state.
pub open spec fn challenge_step(
    passphrase: Seq<char>,
    state: Option<UserStateView>,
) -> StepView {
    match state {
        Some(state) => match (state.time_diff(), state.invoice()) {
            (Some(time), _) => StepView::Answer(challenge_done_text(time)),
            (None, Some(invoice)) => StepView::Answer(
                challenge_open_text(passphrase, invoice.text),
            ),
            (None, None) => StepView::CreateInvoice {
                passphrase,
                amount_msat: INVOICE_MSAT,
                expiry_secs: INVOICE_EXPIRY_SECS,
            },
        },
        None => StepView::Usage,
    }
}

/// The step for a request of a channel, given the peer that was read.
pub open spec fn channel_step(
    sats: u64,
    text: Seq<char>,
    peer: Option<(Seq<u8>, SocketAddressView)>,
) -> StepView {
    match peer {
        Some((key, address)) => StepView::OpenChannel { key, address, sats, peer: text },
        None => StepView::Answer(bad_peer_text(text)),
    }
}

/// The step for an invoice to pay, given the payment hash that was read. The
/// faucet does not pay its own invoices.
pub open spec fn payment_step(
    users: Seq<UserView>,
    invoice: Seq<char>,
    payment_hash: Option<Seq<u8>>,
) -> StepView {
    match payment_hash {
        Some(payment_hash) => if has_hash(users, payment_hash) {
            StepView::Answer(OWN_INVOICE@)
        } else {
            StepView::PayInvoice { invoice }
        },
        None => StepView::Usage,
    }
}

/// The step for a path that starts with `name` and goes on with `argument`.
pub open spec fn route(
    faucet: FaucetView,
    path: Seq<char>,
    name: Seq<char>,
    argument: Option<Seq<char>>,
) -> StepView {
    if name == "getsats"@ {
        match argument {
            Some(address) => sats_step(
                faucet.sats_per_request,
                path,
                address,
                address_error(address),
            ),
            None => StepView::Usage,
        }
    } else if name == "getinvoice"@ {
        match argument {
            Some(passphrase) => challenge_step(passphrase, state_of(faucet.users, passphrase)),
            None => StepView::Register,
        }
    } else if name == "getchannel"@ {
        match argument {
            Some(peer) => channel_step(faucet.sats_per_request, peer, peer_of(peer)),
            None => StepView::Usage,
        }
    } else if name == "getfundingaddress"@ {
        StepView::FundingAddress
    } else if name == "getnodeid"@ {
        StepView::NodeId
    } else if name == "getleaderboard"@ {
        StepView::Leaderboard
    } else if name == "payinvoice"@ {
        match argument {
            Some(invoice) => payment_step(faucet.users, invoice, readable_hash(invoice)),
            None => StepView::Usage,
        }
    } else {
        match argument {
            Some(_) => StepView::Usage,
            None => bare_step(faucet.sats_per_request, name, address_error(name)),
        }
    }
}

/// The step for a request: only `GET` is served, and of the path only what
/// stands between its first slash and its third counts.
pub open spec fn step_for(faucet: FaucetView, method: Seq<char>, path: Seq<char>) -> StepView {
    let parts = pieces(path, '/');
    if method != "GET"@ || parts.len() < 2 {
        StepView::Usage
    } else if parts.len() == 2 {
        route(faucet, path, parts[1], None)
    } else {
        route(faucet, path, parts[1], Some(parts[2]))
    }
}

impl FaucetSvc {
    /// Whether no two participants have the same passphrase.
    pub open spec fn wf(&self) -> bool {
        distinct(self@.users)
    }

    /// A faucet that gives `sats_per_request` and names new participants by
    /// words of the list.
    pub fn new(sats_per_request: u64, users: Users, wordlist: Vec<String>) -> (res: FaucetSvc)
        requires
            users.wf(),
        ensures
            res.wf(),
            res@ == (FaucetView { sats_per_request, users: users@, words: texts(wordlist@) }),
    {
        FaucetSvc { sats_per_request, users, wordlist }
    }

    /// A passphrase that is not taken: the first in the order of the words.
    /// There is none where all are taken.
    pub fn free_passphrase(&self) -> (res: Option<String>)
        ensures
            match res {
                Some(passphrase) => is_free(self@, passphrase@) && exists|i: int, j: int, k: int|
                    is_first_free(self@, passphrase@, i, j, k),
                None => forall|passphrase: Seq<char>| !is_free(self@, passphrase),
            },
    {
        let words = &self.wordlist;
        let ghost texts = self@.words;
        let mut i: usize = 0;
        while i < words.len()
            invariant
                words == self.wordlist,
                texts == self@.words,
                i <= words@.len(),
                forall|a: int, b: int, c: int|
                    0 <= a < i && 0 <= b < texts.len() && 0 <= c < texts.len() ==> registered(
                        self@.users,
                        #[trigger] passphrase_text(texts[a], texts[b], texts[c]),
                    ),
            decreases words@.len() - i,
        {
            let mut j: usize = 0;
            while j < words.len()
                invariant
                    words == self.wordlist,
                    texts == self@.words,
                    i < words@.len(),
                    j <= words@.len(),
                    forall|a: int, b: int, c: int|
                        0 <= a < i && 0 <= b < texts.len() && 0 <= c < texts.len() ==> registered(
                            self@.users,
                            #[trigger] passphrase_text(texts[a], texts[b], texts[c]),
                        ),
                    forall|b: int, c: int|
                        0 <= b < j && 0 <= c < texts.len() ==> registered(
                            self@.users,
                            #[trigger] passphrase_text(texts[i as int], texts[b], texts[c]),
                        ),
                decreases words@.len() - j,
            {
                let mut k: usize = 0;
                while k < words.len()
                    invariant
                        words == self.wordlist,
                        texts == self@.words,
                        i < words@.len(),
                        j < words@.len(),
                        k <= words@.len(),
                        forall|a: int, b: int, c: int|
                            0 <= a < i && 0 <= b < texts.len() && 0 <= c < texts.len() ==> registered(
                                self@.users,
                                #[trigger] passphrase_text(texts[a], texts[b], texts[c]),
                            ),
                        forall|b: int, c: int|
                            0 <= b < j && 0 <= c < texts.len() ==> registered(
                                self@.users,
                                #[trigger] passphrase_text(texts[i as int], texts[b], texts[c]),
                            ),
                        forall|c: int|
                            0 <= c < k ==> registered(
                                self@.users,
                                #[trigger] passphrase_text(
                                    texts[i as int],
                                    texts[j as int],
                                    texts[c],
                                ),
                            ),
                    decreases words@.len() - k,
                {
                    let passphrase = join_words(
                        words[i].as_str(),
                        words[j].as_str(),
                        words[k].as_str(),
                    );
                    assert(passphrase@ == passphrase_text(
                        texts[i as int],
                        texts[j as int],
                        texts[k as int],
                    ));
                    if !self.users.contains(passphrase.as_str()) {
                        assert(texts.contains(texts[i as int]));
                        assert(texts.contains(texts[j as int]));
                        assert(texts.contains(texts[k as int]));
                        assert(is_first_free(self@, passphrase@, i as int, j as int, k as int));
                        return Some(passphrase);
                    }
                    k = k + 1;
                }
                j = j + 1;
            }
            i = i + 1;
        }
        None
    }

    /// Registers a participant under a fresh passphrase. Passphrases are drawn
    /// until one is not taken. That this ends is not left to chance: should
    /// `u64::MAX` draws all be taken, the words are gone through in order.
    pub fn new_user(&mut self) -> (res: String)
        requires
            old(self).wf(),
            exists|passphrase: Seq<char>| is_free(old(self)@, passphrase),
        ensures
            final(self).wf(),
            is_free(old(self)@, res@),
            final(self)@ == (FaucetView {
                users: with_new(old(self)@.users, res@),
                ..old(self)@
            }),
    {
        let mut left: u64 = u64::MAX;
        while left > 0
            invariant
                self.wf(),
                self@ == old(self)@,
                self@.words.len() > 0,
            decreases left,
        {
            let passphrase = generate_passphrase(&self.wordlist);
            if self.users.register(passphrase.as_str()) {
                return passphrase;
            }
            left = left - 1;
        }
        match self.free_passphrase() {
            Some(passphrase) => {
                self.users.register(passphrase.as_str());
                passphrase
            },
            None => String::new(),
        }
    }

    /// The step for a request of coins, once the address has been checked.
    pub fn sats_step(&self, path: &str, address: &str, checked: Result<(), String>) -> (res: Step)
        ensures
            res@ == sats_step(
                self@.sats_per_request,
                path@,
                address@,
                match checked {
                    Ok(()) => None,
                    Err(err) => Some(err@),
                },
            ),
    {
        match checked {
            Ok(()) => Step::SendToAddress {
                address: address.to_owned(),
                sats: self.sats_per_request,
            },
            Err(err) => Step::Answer(request_error(err.as_str(), path)),
        }
    }

    /// The step for a request that names nothing but an address, once the
    /// address has been checked.
    pub fn bare_step(&self, address: &str, checked: Result<(), String>) -> (res: Step)
        ensures
            res@ == bare_step(
                self@.sats_per_request,
                address@,
                match checked {
                    Ok(()) => None,
                    Err(err) => Some(err@),
                },
            ),
    {
        match checked {
            Ok(()) => Step::SendToAddress {
                address: address.to_owned(),
                sats: self.sats_per_request,
            },
            Err(_) => Step::Usage,
        }
    }

    /// The step for whoever asks for the challenge with a passphrase.
    pub fn challenge_step(&self, passphrase: &str) -> (res: Step)
        requires
            self.wf(),
        ensures
            res@ == challenge_step(passphrase@, state_of(self@.users, passphrase@)),
    {
        match self.users.state(passphrase) {
            Some(state) => {
                if let Some(time) = state.time_diff() {
                    return Step::Answer(challenge_done(&time));
                }
                match state.invoice() {
                    Some(invoice) => Step::Answer(
                        challenge_open(passphrase, invoice.text.as_str()),
                    ),
                    None => Step::CreateInvoice {
                        passphrase: passphrase.to_owned(),
                        amount_msat: INVOICE_MSAT,
                        expiry_secs: INVOICE_EXPIRY_SECS,
                    },
                }
            },
            None => Step::Usage,
        }
    }

    /// The step for a request of a channel, once the peer has been read.
    pub fn channel_step(
        &self,
        text: &str,
        peer: Result<(PublicKey, SocketAddress), ()>,
    ) -> (res: Step)
        ensures
            res@ == channel_step(
                self@.sats_per_request,
                text@,
                match peer {
                    Ok((key, address)) => Some((key@, address@)),
                    Err(_) => None,
                },
            ),
    {
        match peer {
            Ok((key, address)) => Step::OpenChannel {
                key,
                address,
                sats: self.sats_per_request,
                peer: text.to_owned(),
            },
            Err(_) => Step::Answer(bad_peer(text)),
        }
    }

    /// The step for an invoice to pay, once its payment hash has been read.
    pub fn payment_step(&self, invoice: &str, payment_hash: Option<[u8; 32]>) -> (res: Step)
        ensures
            res@ == payment_step(
                self@.users,
                invoice@,
                match payment_hash {
                    Some(payment_hash) => Some(payment_hash@),
                    None => None,
                },
            ),
    {
        match payment_hash {
            Some(payment_hash) => {
                if self.users.knows_hash(&payment_hash) {
                    Step::Answer(OWN_INVOICE.to_owned())
                } else {
                    Step::PayInvoice { invoice: invoice.to_owned() }
                }
            },
            None => Step::Usage,
        }
    }

    fn route(&self, path: &str, name: &str, argument: Option<&str>) -> (res: Step)
        requires
            self.wf(),
        ensures
            res@ == route(
                self@,
                path@,
                name@,
                match argument {
                    Some(argument) => Some(argument@),
                    None => None,
                },
            ),
    {
        if str_eq(name, "getsats") {
            match argument {
                Some(address) => self.sats_step(path, address, check_address(address)),
                None => Step::Usage,
            }
        } else if str_eq(name, "getinvoice") {
            match argument {
                Some(passphrase) => self.challenge_step(passphrase),
                None => Step::Register,
            }
        } else if str_eq(name, "getchannel") {
            match argument {
                Some(peer) => self.channel_step(peer, convert_peer_info(peer)),
                None => Step::Usage,
            }
        } else if str_eq(name, "getfundingaddress") {
            Step::FundingAddress
        } else if str_eq(name, "getnodeid") {
            Step::NodeId
        } else if str_eq(name, "getleaderboard") {
            Step::Leaderboard
        } else if str_eq(name, "payinvoice") {
            match argument {
                Some(invoice) => self.payment_step(invoice, payment_hash_of(invoice)),
                None => Step::Usage,
            }
        } else {
            match argument {
                Some(_) => Step::Usage,
                None => self.bare_step(name, check_address(name)),
            }
        }
    }

    /// What is to be done about a request.
    pub fn call(&self, method: &str, path: &str) -> (res: Step)
        requires
            self.wf(),
        ensures
            res@ == step_for(self@, method@, path@),
    {
        if !str_eq(method, "GET") {
            return Step::Usage;
        }
        let parts = split(path, '/');
        assert(texts(parts@).len() == parts@.len());
        if parts.len() < 2 {
            Step::Usage
        } else if parts.len() == 2 {
            assert(parts@[1]@ == pieces(path@, '/')[1]);
            self.route(path, parts[1].as_str(), None)
        } else {
            assert(parts@[1]@ == pieces(path@, '/')[1]);
            assert(parts@[2]@ == pieces(path@, '/')[2]);
            self.route(path, parts[1].as_str(), Some(parts[2].as_str()))
        }
    }

    /// Records an invoice that was made out at `now` to the participant with
    /// the passphrase, and answers with it.
    pub fn invoice_created_at(
        &mut self,
        passphrase: &str,
        invoice: Invoice,
        now: Timestamp,
    ) -> (res: String)
        requires
            old(self).wf(),
        ensures
            final(self).wf(),
            final(self)@ == (FaucetView {
                users: with_invoice(old(self)@.users, passphrase@, invoice@, now),
                ..old(self)@
            }),
            res@ == challenge_open_text(passphrase@, invoice@.text),
    {
        let res = challenge_open(passphrase, invoice.text.as_str());
        self.users.give_invoice_at(passphrase, invoice, now);
        res
    }

    /// Records an invoice that was made out just now to the participant with
    /// the passphrase, and answers with it.
    pub fn invoice_created(&mut self, passphrase: &str, invoice: Invoice) -> (res: String)
        requires
            old(self).wf(),
        ensures
            final(self).wf(),
            exists|now: Timestamp|
                now.is_normal() && final(self)@ == (FaucetView {
                    users: #[trigger] with_invoice(
                        old(self)@.users,
                        passphrase@,
                        invoice@,
                        now,
                    ),
                    ..old(self)@
                }),
            res@ == challenge_open_text(passphrase@, invoice@.text),
    {
        let time_created = now();
        self.invoice_created_at(passphrase, invoice, time_created)
    }

    /// Records a payment that came in at `now`.
    pub fn payment_received_at(&mut self, payment_hash: &[u8; 32], now: Timestamp)
        requires
            old(self).wf(),
        ensures
            final(self).wf(),
            final(self)@ == (FaucetView {
                users: with_payment(old(self)@.users, payment_hash@, now),
                ..old(self)@
            }),
    {
        self.users.settle_at(payment_hash, now);
    }

    /// Records a payment that came in just now.
    pub fn payment_received(&mut self, payment_hash: &[u8; 32])
        requires
            old(self).wf(),
        ensures
            final(self).wf(),
            exists|now: Timestamp|
                now.is_normal() && final(self)@ == (FaucetView {
                    users: #[trigger] with_payment(old(self)@.users, payment_hash@, now),
                    ..old(self)@
                }),
    {
        let time_paid = now();
        self.payment_received_at(payment_hash, time_paid);
    }

    /// Whether everybody who paid did so at or after the time of the invoice.
    pub fn has_known_times(&self) -> (res: bool)
        ensures
            res == times_known(self@.users),
    {
        has_known_times(&self.users)
    }

    /// The leaderboard.
    pub fn leaderboard(&self) -> (res: String)
        requires
            times_known(self@.users),
        ensures
            res@ == board_text(self@.users),
    {
        leaderboard(&self.users)
    }
}

/// How much of a channel of `sats` is on the peer's side from the start: half.
pub fn push_msat(sats: u64) -> (res: u64)
    requires
        sats * 1000 <= u64::MAX,
    ensures
        res == sats * 500,
        res + res == sats * 1000,
{
    sats * 1000 / 2
}

} // verus!
