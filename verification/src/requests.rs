//! What each request is answered with.

use vstd::prelude::*;
use crate::clock::Timestamp;
use crate::faucet::{
    bare_step, challenge_step, channel_step, is_first_free, is_free, payment_step, sats_step,
    step_for, FaucetView, StepView,
};
use crate::laws::{is_request_name, lemma_names};
use crate::parse::{address_error, readable_hash};
use crate::passphrase::{law_joined_words, law_passphrases};
use crate::peer::{
    compressed_key, law_peer_read, parsed_socket_address, peer_of, SocketAddressView,
};
use crate::text::{decimal_text, law_pieces, law_pieces_around, pieces};
use crate::user::{InvoiceView, UserStateView};
use crate::users::{
    law_invoice_recorded, law_known_hashes, law_payment_recorded, law_told, with_invoice, with_payment,
    UserView,
};

verus! {

/// Whether a path goes on with `rest` after a piece: it ends there, or there
/// is a slash.
pub open spec fn goes_on(rest: Seq<char>) -> bool {
    rest.len() == 0 || rest[0] == '/'
}

/// What stands before the first slash does not matter, nor does what follows
/// the third.
proof fn lemma_parts(lead: Seq<char>, name: Seq<char>, argument: Seq<char>, rest: Seq<char>)
    requires
        !lead.contains('/'),
        !name.contains('/'),
        !argument.contains('/'),
        goes_on(rest),
    ensures
        ({
            let parts = pieces(lead.push('/') + name.push('/') + argument + rest, '/');
            &&& parts.len() >= 3
            &&& parts[1] == name
            &&& parts[2] == argument
        }),
{
    let tail = argument + rest;
    let inner = name.push('/') + tail;
    let path = lead.push('/') + name.push('/') + argument + rest;
    assert(path == lead.push('/') + inner);
    law_pieces_around(lead, inner, '/');
    law_pieces_around(name, tail, '/');
    if rest.len() == 0 {
        assert(tail == argument);
        law_pieces_around(argument, rest, '/');
        assert(pieces(tail, '/') == seq![argument]);
    } else {
        let after = rest.skip(1);
        assert(tail == argument.push('/') + after);
        law_pieces_around(argument, after, '/');
        assert(pieces(tail, '/')[0] == argument);
    }
}

proof fn lemma_alone(lead: Seq<char>, name: Seq<char>)
    requires
        !lead.contains('/'),
        !name.contains('/'),
    ensures
        pieces(lead.push('/') + name, '/') == seq![lead, name],
{
    law_pieces_around(lead, name, '/');
}

/// Coins for an address without an error: the faucet's amount, whatever it is,
/// is sent to that very address. An error is told, with the path.
pub proof fn law_getsats(
    faucet: FaucetView,
    lead: Seq<char>,
    address: Seq<char>,
    rest: Seq<char>,
    err: Seq<char>,
)
    requires
        !lead.contains('/'),
        !address.contains('/'),
        goes_on(rest),
    ensures
        address_error(address) is None ==> step_for(
            faucet,
            "GET"@,
            lead + "/getsats/"@ + address + rest,
        ) == (StepView::SendToAddress { address, sats: faucet.sats_per_request }),
        address_error(address) == Some(err) ==> step_for(
            faucet,
            "GET"@,
            lead + "/getsats/"@ + address + rest,
        ) == StepView::Answer(
            "ERR: "@ + err + " for request: \""@ + (lead + "/getsats/"@ + address + rest) + "\""@,
        ),
        step_for(faucet, "GET"@, lead + "/getsats"@) == StepView::Usage,
{
    lemma_names();
    assert(is_request_name("getsats"@));
    lemma_parts(lead, "getsats"@, address, rest);
    lemma_alone(lead, "getsats"@);
    reveal_strlit("getsats");
    reveal_strlit("/getsats/");
    reveal_strlit("/getsats");
    assert(lead + "/getsats/"@ + address + rest == lead.push('/') + "getsats"@.push('/') + address
        + rest);
    assert(lead + "/getsats"@ == lead.push('/') + "getsats"@);
}

/// What a request of coins comes to once the address has been checked, for
/// every amount, path and address.
pub proof fn law_sats_step(sats: u64, path: Seq<char>, address: Seq<char>, err: Seq<char>)
    ensures
        sats_step(sats, path, address, None) == (StepView::SendToAddress { address, sats }),
        sats_step(sats, path, address, Some(err)) == StepView::Answer(
            "ERR: "@ + err + " for request: \""@ + path + "\""@,
        ),
        bare_step(sats, address, None) == (StepView::SendToAddress { address, sats }),
        bare_step(sats, address, Some(err)) == StepView::Usage,
{
}

/// What a request of a channel comes to once the peer has been read, for every
/// amount, key and kind of address.
pub proof fn law_channel_step(
    sats: u64,
    text: Seq<char>,
    key: Seq<u8>,
    address: SocketAddressView,
)
    ensures
        channel_step(sats, text, Some((key, address))) == (StepView::OpenChannel {
            key,
            address,
            sats,
            peer: text,
        }),
        channel_step(sats, text, None) == StepView::Answer(
            "ERR: Failed to parse peer info: "@ + text,
        ),
{
}

/// A channel for a peer that can be read: the faucet's amount, whatever it is,
/// to that very key at that very address, of whatever kind. A peer that cannot
/// be read is told.
pub proof fn law_getchannel(
    faucet: FaucetView,
    lead: Seq<char>,
    text: Seq<char>,
    rest: Seq<char>,
    key: Seq<u8>,
    address: SocketAddressView,
)
    requires
        !lead.contains('/'),
        !text.contains('/'),
        goes_on(rest),
    ensures
        peer_of(text) == Some((key, address)) ==> step_for(
            faucet,
            "GET"@,
            lead + "/getchannel/"@ + text + rest,
        ) == (StepView::OpenChannel {
            key,
            address,
            sats: faucet.sats_per_request,
            peer: text,
        }),
        peer_of(text) is None ==> step_for(faucet, "GET"@, lead + "/getchannel/"@ + text + rest)
            == StepView::Answer("ERR: Failed to parse peer info: "@ + text),
        step_for(faucet, "GET"@, lead + "/getchannel"@) == StepView::Usage,
{
    lemma_names();
    assert(is_request_name("getchannel"@));
    lemma_parts(lead, "getchannel"@, text, rest);
    lemma_alone(lead, "getchannel"@);
    reveal_strlit("getchannel");
    reveal_strlit("/getchannel/");
    reveal_strlit("/getchannel");
    assert(lead + "/getchannel/"@ + text + rest == lead.push('/') + "getchannel"@.push('/') + text
        + rest);
    assert(lead + "/getchannel"@ == lead.push('/') + "getchannel"@);
}

/// A channel for a peer written as a key, an at sign and an address, where
/// both can be read.
pub proof fn law_getchannel_written(
    faucet: FaucetView,
    lead: Seq<char>,
    left: Seq<char>,
    right: Seq<char>,
    rest: Seq<char>,
    key: Seq<u8>,
    address: SocketAddressView,
)
    requires
        !lead.contains('/'),
        !left.contains('/'),
        !right.contains('/'),
        !left.contains('@'),
        goes_on(rest),
        compressed_key(left) == Some(key),
        parsed_socket_address(right) == Some(address),
    ensures
        step_for(faucet, "GET"@, lead + "/getchannel/"@ + (left.push('@') + right) + rest) == (
        StepView::OpenChannel {
            key,
            address,
            sats: faucet.sats_per_request,
            peer: left.push('@') + right,
        }),
{
    let text = left.push('@') + right;
    assert(!text.contains('/')) by {
        if text.contains('/') {
            let i = choose|i: int| 0 <= i < text.len() && text[i] == '/';
            if i < left.len() {
                assert(left[i] == '/');
            } else {
                assert(right[i - left.len() - 1] == '/');
            }
        }
    }
    law_peer_read(left, right, key, address);
    law_getchannel(faucet, lead, text, rest, key, address);
}

/// What the challenge comes to for each place where a participant can stand.
pub proof fn law_challenge_step(
    passphrase: Seq<char>,
    invoice: InvoiceView,
    t1: Timestamp,
    t2: Timestamp,
)
    ensures
        challenge_step(passphrase, None) == StepView::Usage,
        challenge_step(passphrase, Some(UserStateView::New)) == (StepView::CreateInvoice {
            passphrase,
            amount_msat: 10_000_000,
            expiry_secs: 7200,
        }),
        challenge_step(
            passphrase,
            Some(UserStateView::CreatedInvoice { invoice, time_created: t1 }),
        ) == StepView::Answer(
            "<meta http-equiv=\"refresh\" content=\"5\" />Hi "@ + passphrase
                + "! Please pay this invoice as quickly as possible:<br><br>"@ + invoice.text,
        ),
        t1.at() <= t2.at() ==> challenge_step(
            passphrase,
            Some(UserStateView::PaidInvoice { invoice, time_created: t1, time_paid: t2 }),
        ) == StepView::Answer(
            "DONE! You paid the invoice in "@ + decimal_text(
                ((t2.at() - t1.at()) / 1_000_000_000) as nat,
            ) + " seconds!"@,
        ),
        t1.at() > t2.at() ==> challenge_step(
            passphrase,
            Some(UserStateView::PaidInvoice { invoice, time_created: t1, time_paid: t2 }),
        ) == StepView::Answer(
            "<meta http-equiv=\"refresh\" content=\"5\" />Hi "@ + passphrase
                + "! Please pay this invoice as quickly as possible:<br><br>"@ + invoice.text,
        ),
{
}

/// Whoever is registered, whatever their place, is answered by where they
/// stand: at first they get an invoice over ten thousand satoshi for two
/// hours, later they see that invoice, and in the end the whole seconds that
/// they took.
pub proof fn law_getinvoice(
    faucet: FaucetView,
    lead: Seq<char>,
    rest: Seq<char>,
    i: int,
    invoice: InvoiceView,
    t1: Timestamp,
    t2: Timestamp,
)
    requires
        0 <= i < faucet.users.len(),
        faucet.users.map_values(|user: UserView| user.passphrase).no_duplicates(),
        !lead.contains('/'),
        !faucet.users[i].passphrase.contains('/'),
        goes_on(rest),
    ensures
        ({
            let user = faucet.users[i];
            let step = step_for(faucet, "GET"@, lead + "/getinvoice/"@ + user.passphrase + rest);
            &&& user.state == UserStateView::New ==> step == (StepView::CreateInvoice {
                passphrase: user.passphrase,
                amount_msat: 10_000_000,
                expiry_secs: 7200,
            })
            &&& user.state == (UserStateView::CreatedInvoice { invoice, time_created: t1 }) ==> step
                == StepView::Answer(
                "<meta http-equiv=\"refresh\" content=\"5\" />Hi "@ + user.passphrase
                    + "! Please pay this invoice as quickly as possible:<br><br>"@ + invoice.text,
            )
            &&& user.state == (UserStateView::PaidInvoice {
                invoice,
                time_created: t1,
                time_paid: t2,
            }) && t1.at() <= t2.at() ==> step == StepView::Answer(
                "DONE! You paid the invoice in "@ + decimal_text(
                    ((t2.at() - t1.at()) / 1_000_000_000) as nat,
                ) + " seconds!"@,
            )
            &&& user.state == (UserStateView::PaidInvoice {
                invoice,
                time_created: t1,
                time_paid: t2,
            }) && t1.at() > t2.at() ==> step == StepView::Answer(
                "<meta http-equiv=\"refresh\" content=\"5\" />Hi "@ + user.passphrase
                    + "! Please pay this invoice as quickly as possible:<br><br>"@ + invoice.text,
            )
        }),
{
    let passphrase = faucet.users[i].passphrase;
    lemma_names();
    assert(is_request_name("getinvoice"@));
    lemma_parts(lead, "getinvoice"@, passphrase, rest);
    reveal_strlit("getinvoice");
    reveal_strlit("/getinvoice/");
    assert(lead + "/getinvoice/"@ + passphrase + rest == lead.push('/') + "getinvoice"@.push('/')
        + passphrase + rest);
    law_told(faucet.users, i, passphrase);
    law_challenge_step(passphrase, invoice, t1, t2);
}

/// Whoever names no passphrase is registered; whoever names one that nobody
/// has is shown the usage.
pub proof fn law_getinvoice_unknown(
    faucet: FaucetView,
    lead: Seq<char>,
    passphrase: Seq<char>,
    rest: Seq<char>,
)
    requires
        !lead.contains('/'),
        !passphrase.contains('/'),
        goes_on(rest),
        forall|i: int|
            0 <= i < faucet.users.len() ==> (#[trigger] faucet.users[i]).passphrase != passphrase,
    ensures
        step_for(faucet, "GET"@, lead + "/getinvoice"@) == StepView::Register,
        step_for(faucet, "GET"@, lead + "/getinvoice/"@ + passphrase + rest) == StepView::Usage,
{
    lemma_names();
    assert(is_request_name("getinvoice"@));
    lemma_parts(lead, "getinvoice"@, passphrase, rest);
    lemma_alone(lead, "getinvoice"@);
    reveal_strlit("getinvoice");
    reveal_strlit("/getinvoice/");
    reveal_strlit("/getinvoice");
    assert(lead + "/getinvoice/"@ + passphrase + rest == lead.push('/') + "getinvoice"@.push('/')
        + passphrase + rest);
    assert(lead + "/getinvoice"@ == lead.push('/') + "getinvoice"@);
}

/// What an invoice to pay comes to once its hash has been read: it is refused
/// if any participant, whatever their place, was given an invoice with that
/// hash, paid or not. It is paid if nobody was.
pub proof fn law_payment_step(
    users: Seq<UserView>,
    i: int,
    known: InvoiceView,
    t1: Timestamp,
    t2: Timestamp,
    text: Seq<char>,
    payment_hash: Seq<u8>,
)
    ensures
        payment_step(users, text, None) == StepView::Usage,
        0 <= i < users.len() && users[i].state == (UserStateView::CreatedInvoice {
            invoice: known,
            time_created: t1,
        }) ==> payment_step(users, text, Some(known.payment_hash)) == StepView::Answer(
            "Won't pay my own invoices!"@,
        ),
        0 <= i < users.len() && users[i].state == (UserStateView::PaidInvoice {
            invoice: known,
            time_created: t1,
            time_paid: t2,
        }) ==> payment_step(users, text, Some(known.payment_hash)) == StepView::Answer(
            "Won't pay my own invoices!"@,
        ),
        (forall|j: int|
            0 <= j < users.len() ==> match (#[trigger] users[j]).state {
                UserStateView::New => true,
                UserStateView::CreatedInvoice { invoice, .. } => invoice.payment_hash
                    != payment_hash,
                UserStateView::PaidInvoice { invoice, .. } => invoice.payment_hash != payment_hash,
            }) ==> payment_step(users, text, Some(payment_hash)) == (StepView::PayInvoice {
            invoice: text,
        }),
{
    if 0 <= i < users.len() {
        law_known_hashes(users, i, known, t1, t2, payment_hash);
    }
}

proof fn lemma_payinvoice(faucet: FaucetView, lead: Seq<char>, text: Seq<char>, rest: Seq<char>)
    requires
        !lead.contains('/'),
        !text.contains('/'),
        goes_on(rest),
    ensures
        step_for(faucet, "GET"@, lead + "/payinvoice/"@ + text + rest) == payment_step(
            faucet.users,
            text,
            readable_hash(text),
        ),
        step_for(faucet, "GET"@, lead + "/payinvoice"@) == StepView::Usage,
{
    lemma_names();
    assert(is_request_name("payinvoice"@));
    lemma_parts(lead, "payinvoice"@, text, rest);
    lemma_alone(lead, "payinvoice"@);
    reveal_strlit("payinvoice");
    reveal_strlit("/payinvoice/");
    reveal_strlit("/payinvoice");
    assert(lead + "/payinvoice/"@ + text + rest == lead.push('/') + "payinvoice"@.push('/') + text
        + rest);
    assert(lead + "/payinvoice"@ == lead.push('/') + "payinvoice"@);
}

/// The faucet refuses to pay an invoice with the hash of one that any of its
/// participants was given, whatever their place, and whether it was paid or
/// not.
pub proof fn law_own_refused(
    faucet: FaucetView,
    lead: Seq<char>,
    text: Seq<char>,
    rest: Seq<char>,
    i: int,
    known: InvoiceView,
    t1: Timestamp,
    t2: Timestamp,
)
    requires
        0 <= i < faucet.users.len(),
        faucet.users[i].state == (UserStateView::CreatedInvoice { invoice: known, time_created: t1 })
            || faucet.users[i].state == (UserStateView::PaidInvoice {
            invoice: known,
            time_created: t1,
            time_paid: t2,
        }),
        readable_hash(text) == Some(known.payment_hash),
        !lead.contains('/'),
        !text.contains('/'),
        goes_on(rest),
    ensures
        step_for(faucet, "GET"@, lead + "/payinvoice/"@ + text + rest) == StepView::Answer(
            "Won't pay my own invoices!"@,
        ),
{
    lemma_payinvoice(faucet, lead, text, rest);
    law_payment_step(faucet.users, i, known, t1, t2, text, known.payment_hash);
}

/// No request, whatever its method and path, makes the faucet pay an invoice
/// with the hash of one that any of its participants was given.
pub proof fn law_own_never_paid(
    faucet: FaucetView,
    method: Seq<char>,
    path: Seq<char>,
    text: Seq<char>,
    i: int,
    known: InvoiceView,
    t1: Timestamp,
    t2: Timestamp,
)
    requires
        0 <= i < faucet.users.len(),
        faucet.users[i].state == (UserStateView::CreatedInvoice { invoice: known, time_created: t1 })
            || faucet.users[i].state == (UserStateView::PaidInvoice {
            invoice: known,
            time_created: t1,
            time_paid: t2,
        }),
        readable_hash(text) == Some(known.payment_hash),
    ensures
        step_for(faucet, method, path) != (StepView::PayInvoice { invoice: text }),
{
    law_payment_step(faucet.users, i, known, t1, t2, text, known.payment_hash);
}

/// From when an invoice is made out to any new participant, whatever their
/// place and whoever else there is, the faucet refuses to pay one with its
/// hash: while it is open, after it was paid, and after any other payment.
pub proof fn law_given_refused(
    faucet: FaucetView,
    i: int,
    invoice: InvoiceView,
    t1: Timestamp,
    payment_hash: Seq<u8>,
    t2: Timestamp,
    lead: Seq<char>,
    text: Seq<char>,
    rest: Seq<char>,
)
    requires
        0 <= i < faucet.users.len(),
        faucet.users[i].state == UserStateView::New,
        readable_hash(text) == Some(invoice.payment_hash),
        !lead.contains('/'),
        !text.contains('/'),
        goes_on(rest),
    ensures
        ({
            let users = with_invoice(faucet.users, faucet.users[i].passphrase, invoice, t1);
            let path = lead + "/payinvoice/"@ + text + rest;
            let refusal = StepView::Answer("Won't pay my own invoices!"@);
            &&& step_for(FaucetView { users, ..faucet }, "GET"@, path) == refusal
            &&& step_for(
                FaucetView { users: with_payment(users, invoice.payment_hash, t2), ..faucet },
                "GET"@,
                path,
            ) == refusal
            &&& step_for(
                FaucetView { users: with_payment(users, payment_hash, t2), ..faucet },
                "GET"@,
                path,
            ) == refusal
        }),
{
    let users = with_invoice(faucet.users, faucet.users[i].passphrase, invoice, t1);
    law_invoice_recorded(faucet.users, faucet.users[i].passphrase, invoice, t1, i);
    law_payment_recorded(users, invoice.payment_hash, t2, i, invoice, t1);
    law_payment_recorded(users, payment_hash, t2, i, invoice, t1);
    law_own_refused(FaucetView { users, ..faucet }, lead, text, rest, i, invoice, t1, t2);
    law_own_refused(
        FaucetView { users: with_payment(users, invoice.payment_hash, t2), ..faucet },
        lead,
        text,
        rest,
        i,
        invoice,
        t1,
        t2,
    );
    law_own_refused(
        FaucetView { users: with_payment(users, payment_hash, t2), ..faucet },
        lead,
        text,
        rest,
        i,
        invoice,
        t1,
        t2,
    );
}

/// An invoice that can be read and whose hash is that of no participant's
/// invoice is paid as it was given. One that cannot be read is not.
pub proof fn law_foreign_paid(
    faucet: FaucetView,
    lead: Seq<char>,
    text: Seq<char>,
    rest: Seq<char>,
    payment_hash: Seq<u8>,
)
    requires
        forall|j: int|
            0 <= j < faucet.users.len() ==> match (#[trigger] faucet.users[j]).state {
                UserStateView::New => true,
                UserStateView::CreatedInvoice { invoice, .. } => invoice.payment_hash
                    != payment_hash,
                UserStateView::PaidInvoice { invoice, .. } => invoice.payment_hash != payment_hash,
            },
        !lead.contains('/'),
        !text.contains('/'),
        goes_on(rest),
    ensures
        readable_hash(text) == Some(payment_hash) ==> step_for(
            faucet,
            "GET"@,
            lead + "/payinvoice/"@ + text + rest,
        ) == (StepView::PayInvoice { invoice: text }),
        readable_hash(text) is None ==> step_for(
            faucet,
            "GET"@,
            lead + "/payinvoice/"@ + text + rest,
        ) == StepView::Usage,
        step_for(faucet, "GET"@, lead + "/payinvoice"@) == StepView::Usage,
{
    lemma_payinvoice(faucet, lead, text, rest);
    let none = Timestamp { before_epoch: false, secs: 0, nanos: 0 };
    let known = InvoiceView { text, payment_hash };
    law_payment_step(faucet.users, -1, known, none, none, text, payment_hash);
}

proof fn lemma_first(lead: Seq<char>, name: Seq<char>, rest: Seq<char>)
    requires
        !lead.contains('/'),
        !name.contains('/'),
        goes_on(rest),
    ensures
        ({
            let parts = pieces(lead.push('/') + name + rest, '/');
            &&& parts.len() >= 2
            &&& parts.len() == 2 <==> rest.len() == 0
            &&& parts[1] == name
        }),
{
    let inner = name + rest;
    assert(lead.push('/') + name + rest == lead.push('/') + inner);
    law_pieces_around(lead, inner, '/');
    if rest.len() == 0 {
        assert(inner == name);
        law_pieces_around(name, rest, '/');
    } else {
        let after = rest.skip(1);
        assert(inner == name.push('/') + after);
        law_pieces_around(name, after, '/');
        law_pieces(after, '/');
    }
}

/// The requests that take no argument are answered alike whatever follows
/// their name.
pub proof fn law_no_argument(faucet: FaucetView, lead: Seq<char>, rest: Seq<char>)
    requires
        !lead.contains('/'),
        goes_on(rest),
    ensures
        step_for(faucet, "GET"@, lead + "/getfundingaddress"@ + rest) == StepView::FundingAddress,
        step_for(faucet, "GET"@, lead + "/getnodeid"@ + rest) == StepView::NodeId,
        step_for(faucet, "GET"@, lead + "/getleaderboard"@ + rest) == StepView::Leaderboard,
{
    lemma_names();
    assert(is_request_name("getfundingaddress"@) && is_request_name("getnodeid"@));
    assert(is_request_name("getleaderboard"@));
    lemma_first(lead, "getfundingaddress"@, rest);
    lemma_first(lead, "getnodeid"@, rest);
    lemma_first(lead, "getleaderboard"@, rest);
    reveal_strlit("getfundingaddress");
    reveal_strlit("/getfundingaddress");
    reveal_strlit("getnodeid");
    reveal_strlit("/getnodeid");
    reveal_strlit("getleaderboard");
    reveal_strlit("/getleaderboard");
    assert(lead + "/getfundingaddress"@ + rest == lead.push('/') + "getfundingaddress"@ + rest);
    assert(lead + "/getnodeid"@ + rest == lead.push('/') + "getnodeid"@ + rest);
    assert(lead + "/getleaderboard"@ + rest == lead.push('/') + "getleaderboard"@ + rest);
}

/// A path that starts with anything but the name of a request asks for coins
/// if that is an address and nothing follows it. Otherwise, and where there is
/// no slash at all, the usage is shown.
pub proof fn law_no_name(faucet: FaucetView, lead: Seq<char>, name: Seq<char>, rest: Seq<char>)
    requires
        !lead.contains('/'),
        !name.contains('/'),
        name != "getsats"@,
        name != "getinvoice"@,
        name != "getchannel"@,
        name != "getfundingaddress"@,
        name != "getnodeid"@,
        name != "getleaderboard"@,
        name != "payinvoice"@,
    ensures
        step_for(faucet, "GET"@, lead) == StepView::Usage,
        address_error(name) is None ==> step_for(faucet, "GET"@, lead.push('/') + name) == (
        StepView::SendToAddress { address: name, sats: faucet.sats_per_request }),
        address_error(name) is Some ==> step_for(faucet, "GET"@, lead.push('/') + name)
            == StepView::Usage,
        step_for(faucet, "GET"@, lead.push('/') + name.push('/') + rest) == StepView::Usage,
{
    law_pieces_around(lead, name, '/');
    lemma_first(lead, name, seq!['/'] + rest);
    assert(lead.push('/') + name + (seq!['/'] + rest) == lead.push('/') + name.push('/') + rest);
}

/// A passphrase is free exactly if it is made of three words of the list and
/// no participant, whatever their place, has it.
pub proof fn law_free(faucet: FaucetView, passphrase: Seq<char>)
    ensures
        is_free(faucet, passphrase) <==> {
            &&& exists|i: int, j: int, k: int|
                {
                    &&& 0 <= i < faucet.words.len()
                    &&& 0 <= j < faucet.words.len()
                    &&& 0 <= k < faucet.words.len()
                    &&& passphrase == (#[trigger] faucet.words[i]).push('-') + (
                    #[trigger] faucet.words[j]).push('-') + #[trigger] faucet.words[k]
                }
            &&& forall|u: int|
                0 <= u < faucet.users.len() ==> (#[trigger] faucet.users[u]).passphrase
                    != passphrase
        },
{
    law_passphrases(passphrase, faucet.words);
}

/// The first free passphrase is made of the words at its places, nobody has
/// it, and none that nobody has is made of words at places before its own.
pub proof fn law_first_free(
    faucet: FaucetView,
    passphrase: Seq<char>,
    i: int,
    j: int,
    k: int,
    a: int,
    b: int,
    c: int,
)
    requires
        is_first_free(faucet, passphrase, i, j, k),
        0 <= a < faucet.words.len(),
        0 <= b < faucet.words.len(),
        0 <= c < faucet.words.len(),
        forall|u: int|
            0 <= u < faucet.users.len() ==> (#[trigger] faucet.users[u]).passphrase
                != faucet.words[a].push('-') + faucet.words[b].push('-') + faucet.words[c],
    ensures
        0 <= i < faucet.words.len() && 0 <= j < faucet.words.len() && 0 <= k < faucet.words.len(),
        passphrase == faucet.words[i].push('-') + faucet.words[j].push('-') + faucet.words[k],
        forall|u: int|
            0 <= u < faucet.users.len() ==> (#[trigger] faucet.users[u]).passphrase != passphrase,
        i < a || (i == a && (j < b || (j == b && k <= c))),
{
    law_joined_words(faucet.words[i], faucet.words[j], faucet.words[k]);
    law_joined_words(faucet.words[a], faucet.words[b], faucet.words[c]);
}

} // verus!
